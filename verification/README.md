# diagweave

Structured error reports: an error wrapped with governance metadata (error
code, severity, category, retry flag), context entries, notes and payloads,
display causes, source-error chains, a stack trace and trace data; rendered
compact, pretty or as JSON, and exported as tracing fields or OpenTelemetry
log records.

The library in `src/` is written in Verus: every function carries a contract
over a mathematical model of its data, and Verus proves the code meets it.

- `text`, `severity`, `error_code`, `config`: text building blocks, severity
  labels, error codes and their integer conversions, report options and the
  process-wide configuration.
- `attachment`: attachment values, notes and payloads, and the key-sorted
  context map.
- `trace`, `report_trace`: trace ids, trace context, events, and their setters.
- `cause`, `store`, `source_chain`, `source_view`: cause collection with
  depth limits and cycle detection, cause stores, source-error chains with
  their walkers, and the walk of a report's origin sources.
- `report`, `accessors`, `global`, `transform`: the report, its builders and
  readers, injected global context, and changing the wrapped error.
- `json`, `render`, `render_json`, `pretty`: the renderers.
- `ir`, `ir_values`, `trace_emit`, `otel`: the values handed to tracing and
  OpenTelemetry.
- `derive_model`: what the `set!`, `union!` and derive code generators decide.

`app/` is a showcase program around the library: it installs the global
injector, emits through `tracing`, and writes OpenTelemetry records with
serde. The tests are in `tests/`.
