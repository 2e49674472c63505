use diagweave::attachment::{AttachmentValue, FloatValue};
use diagweave::error_code::ErrorCode;
use diagweave::otel::OtelEnvelopeConfig;
use diagweave::render::{Compact, Json, Pretty, PrettyIndent, ReportRenderOptions, ReportRenderer};
use diagweave::report::{DisplayCauseChain, Report, StackFrame, StackTrace, StackTraceFormat};
use diagweave::severity::Severity;
use diagweave::source_chain::{SourceErrorChain, SourceErrorItem};
use diagweave::trace::{HexId, TraceEvent, TraceEventLevel, TraceFlags};

fn base_report() -> Report<()> {
    Report::new((), "api unauthorized".to_string(), "app::ApiError".to_string())
}

fn full_report() -> Report<()> {
    base_report()
        .with_error_code(ErrorCode::from_str_code("API.UNAUTHORIZED"))
        .with_severity(Severity::Error)
        .with_category("auth".to_string())
        .with_retryable(false)
        .with_ctx("request_id".to_string(), AttachmentValue::String("req-json".to_string()))
        .attach_note("token rejected".to_string())
        .attach_payload(
            "response".to_string(),
            AttachmentValue::Bytes(vec![7, 8, 9]),
            Some("application/octet-stream".to_string()),
        )
}

fn quiet_options() -> ReportRenderOptions {
    ReportRenderOptions { show_empty_sections: false, ..ReportRenderOptions::default_options() }
}

#[test]
fn compact_without_metadata_is_the_message() {
    assert_eq!(base_report().to_compact_string(), "api unauthorized");
}

#[test]
fn compact_lists_metadata_and_diagnostics() {
    let text = full_report().to_compact_string();
    assert_eq!(
        text,
        "api unauthorized [code=API.UNAUTHORIZED, severity=error, category=auth, retryable=false, \
         request_id=req-json, token rejected, response=<3 bytes> (application/octet-stream)]"
    );
}

#[test]
fn compact_context_is_sorted_and_replaced() {
    let r = base_report()
        .with_ctx("zeta".to_string(), AttachmentValue::Integer(-3))
        .with_ctx("alpha".to_string(), AttachmentValue::Bool(true))
        .with_ctx("zeta".to_string(), AttachmentValue::Unsigned(7));
    assert_eq!(r.to_compact_string(), "api unauthorized [alpha=true, zeta=7]");
}

#[test]
fn compact_shows_trace_ids() {
    let tid = HexId::<32>::new("4bf92f3577b34da6a3ce929d0e0e4736".to_string()).expect("valid id");
    let sid = HexId::<16>::new("00f067aa0ba902b7".to_string()).expect("valid id");
    let r = base_report().with_trace_ids(tid, sid);
    assert_eq!(
        r.to_compact_string(),
        "api unauthorized [trace_id=4bf92f3577b34da6a3ce929d0e0e4736, span_id=00f067aa0ba902b7]"
    );
}

#[test]
fn json_document_carries_metadata_and_structured_attachments() {
    let text = Json::new(ReportRenderOptions::default_options()).render_text(&full_report()).expect("finite values");
    let parsed: serde_json::Value = serde_json::from_str(&text).expect("valid json");
    assert_eq!(parsed["schema_version"], "v0.1.0");
    assert_eq!(parsed["error"]["message"], "api unauthorized");
    assert_eq!(parsed["error"]["type"], "app::ApiError");
    assert_eq!(parsed["metadata"]["error_code"].as_str(), Some("API.UNAUTHORIZED"));
    assert_eq!(parsed["metadata"]["severity"].as_str(), Some("error"));
    assert_eq!(parsed["metadata"]["category"].as_str(), Some("auth"));
    assert_eq!(parsed["metadata"]["retryable"].as_bool(), Some(false));
    assert!(parsed["diagnostic_bag"]["stack_trace"].is_null());
    assert!(parsed["diagnostic_bag"]["display_causes"].is_null());
    assert!(parsed["diagnostic_bag"]["source_errors"].is_null());
    assert!(parsed["trace"].is_null());
    assert_eq!(parsed["context"].as_array().map(|a| a.len()), Some(1));
    assert_eq!(parsed["context"][0]["value"]["kind"], "string");
    assert_eq!(parsed["attachments"].as_array().map(|a| a.len()), Some(2));
    assert_eq!(parsed["attachments"][0]["kind"], "note");
    assert_eq!(parsed["attachments"][1]["kind"], "payload");
    assert_eq!(parsed["attachments"][1]["value"]["kind"], "bytes");
    assert_eq!(parsed["attachments"][1]["value"]["value"].as_array().map(|a| a.len()), Some(3));
    assert_eq!(parsed["attachments"][1]["value"]["value"][0].as_u64(), Some(7));
    assert_eq!(parsed["attachments"][1]["media_type"], "application/octet-stream");
}

#[test]
fn json_exact_compact_text() {
    let r = base_report().with_retryable(true);
    let text = Json::new(quiet_options()).render_text(&r).expect("finite values");
    assert_eq!(
        text,
        "{\"schema_version\":\"v0.1.0\",\"error\":{\"message\":\"api unauthorized\",\"type\":\"app::ApiError\"},\
         \"metadata\":{\"error_code\":null,\"severity\":null,\"category\":null,\"retryable\":true}}"
    );
}

#[test]
fn json_renderer_honors_section_visibility_options() {
    let opts = ReportRenderOptions {
        show_governance_section: false,
        show_trace_section: false,
        show_stack_trace_section: false,
        show_context_section: false,
        show_attachments_section: false,
        show_cause_chains_section: false,
        show_empty_sections: false,
        ..ReportRenderOptions::default_options()
    };
    let text = Json::new(opts).render_text(&full_report()).expect("finite values");
    let parsed: serde_json::Value = serde_json::from_str(&text).expect("valid json");
    assert!(parsed.get("metadata").is_none());
    assert!(parsed.get("diagnostic_bag").is_none());
    assert!(parsed.get("trace").is_none());
    assert!(parsed.get("context").is_none());
    assert!(parsed.get("attachments").is_none());
    assert_eq!(parsed["error"]["message"], "api unauthorized");
}

#[test]
fn json_display_causes_respect_depth_limits() {
    let r = base_report().with_display_cause("first".to_string()).with_display_cause("second".to_string());
    let opts = ReportRenderOptions { max_source_depth: 1, show_empty_sections: false, ..ReportRenderOptions::default_options() };
    let text = Json::new(opts).render_text(&r).expect("finite values");
    let parsed: serde_json::Value = serde_json::from_str(&text).expect("valid json");
    let display = &parsed["diagnostic_bag"]["display_causes"];
    assert_eq!(display["items"].as_array().map(|a| a.len()), Some(1));
    assert_eq!(display["truncated"].as_bool(), Some(true));
}

#[test]
fn json_preserves_empty_cause_chains_with_state() {
    let mut chain = SourceErrorChain::new();
    chain.truncated = true;
    chain.cycle_detected = true;
    let r = base_report()
        .with_display_cause_chain(DisplayCauseChain { items: vec![], truncated: true, cycle_detected: true })
        .with_source_error_chain(chain);
    let text = Json::new(ReportRenderOptions::default_options()).render_text(&r).expect("finite values");
    let parsed: serde_json::Value = serde_json::from_str(&text).expect("valid json");
    let display = &parsed["diagnostic_bag"]["display_causes"];
    assert_eq!(display["items"].as_array().map(|a| a.len()), Some(0));
    assert_eq!(display["truncated"].as_bool(), Some(true));
    assert_eq!(display["cycle_detected"].as_bool(), Some(true));
    let source = &parsed["diagnostic_bag"]["source_errors"];
    assert_eq!(source["items"].as_array().map(|a| a.len()), Some(0));
    assert_eq!(source["truncated"].as_bool(), Some(true));
    assert_eq!(source["cycle_detected"].as_bool(), Some(true));
}

fn wrapped_chain() -> SourceErrorChain {
    let mut chain = SourceErrorChain::new();
    let inner = chain.push_node(SourceErrorItem::new("auth invalid token".to_string(), Some("app::AuthError".to_string()), 1));
    let mut outer = SourceErrorItem::new(
        "wrapped".to_string(),
        Some("diagweave::report::Report<app::AuthError>".to_string()),
        2,
    );
    outer.source_roots.push(inner);
    let outer_id = chain.push_node(outer);
    chain.push_root(outer_id);
    chain
}

#[test]
fn json_source_errors_nest_and_hide_wrapper_types() {
    let r = base_report().with_source_error_chain(wrapped_chain());
    let text = Json::new(quiet_options()).render_text(&r).expect("finite values");
    let parsed: serde_json::Value = serde_json::from_str(&text).expect("valid json");
    let items = parsed["diagnostic_bag"]["source_errors"]["items"].as_array().expect("items").clone();
    assert_eq!(items.len(), 1);
    assert_eq!(items[0]["message"], "wrapped");
    assert!(items[0]["type"].is_null());
    assert_eq!(items[0]["source"]["items"][0]["message"], "auth invalid token");
    assert_eq!(items[0]["source"]["items"][0]["type"], "app::AuthError");
}

#[test]
fn json_refuses_non_finite_float() {
    let nan = FloatValue::new(f64::NAN.to_bits(), "NaN".to_string());
    let r = base_report().attach_payload("x".to_string(), AttachmentValue::Float(nan), None);
    assert!(Json::new(ReportRenderOptions::default_options()).render_text(&r).is_none());
    let ok = FloatValue::new(1.5f64.to_bits(), format!("{}", 1.5f64));
    let r = base_report().attach_payload("x".to_string(), AttachmentValue::Float(ok), None);
    let text = Json::new(quiet_options()).render_text(&r).expect("finite");
    assert!(text.contains("{\"kind\":\"float\",\"value\":1.5}"));
}

#[test]
fn json_renderer_supports_pretty_option() {
    let opts = ReportRenderOptions { json_pretty: true, show_empty_sections: false, ..ReportRenderOptions::default_options() };
    let text = Json::new(opts).render_text(&base_report()).expect("finite values");
    assert_eq!(
        text,
        "{\n  \"schema_version\": \"v0.1.0\",\n  \"error\": {\n    \"message\": \"api unauthorized\",\n    \"type\": \"app::ApiError\"\n  }\n}"
    );
}

#[test]
fn pretty_default_sections() {
    let text = Pretty::new(ReportRenderOptions::default_options()).render_text(&base_report());
    let expected = "Error:\n  - message: api unauthorized\n  - type: app::ApiError\n\
Governance:\n  - (none)\n\
Trace:\n  - (none)\n\
Stack Trace:\n  - (none)\n\
Context:\n  - (none)\n\
Attachments:\n  - (none)\n\
Display Causes:\n  - (none)\n\
Origin Source Errors:\n  - (none)\n\
Diagnostic Source Errors:\n  - (none)\n";
    assert_eq!(text, expected);
}

#[test]
fn pretty_full_report() {
    let opts = ReportRenderOptions { pretty_indent: PrettyIndent::Tab, ..quiet_options() };
    let text = Pretty::new(opts).render_text(&full_report());
    let expected = "Error:\n\t- message: api unauthorized\n\t- type: app::ApiError\n\
Governance:\n\t- error_code: API.UNAUTHORIZED\n\t- severity: error\n\t- category: auth\n\t- retryable: false\n\
Context:\n\t- request_id: req-json\n\
Attachments:\n\t- note: token rejected\n\t- payload response (application/octet-stream): <3 bytes>\n";
    assert_eq!(text, expected);
}

#[test]
fn pretty_stack_trace_frames_and_raw() {
    let frames = vec![StackFrame {
        symbol: Some("main".to_string()),
        module: None,
        file: Some("src/\"m\".rs".to_string()),
        line: Some(7),
        column: None,
    }];
    let st = StackTrace::new(StackTraceFormat::Native).with_frames(frames);
    let r = base_report().with_stack_trace(st);
    let opts = ReportRenderOptions { show_type_name: false, ..quiet_options() };
    let text = Pretty::new(opts).render_text(&r);
    assert!(text.contains(
        "Stack Trace:\n  - format: Native\n  - frame[0]: symbol=Some(\"main\"), module=None, file=Some(\"src/\\\"m\\\".rs\"), line=Some(7), column=None\n"
    ));
    let raw = StackTrace::new(StackTraceFormat::Raw).with_raw("a\r\nb\nc\n".to_string());
    let r = base_report().with_stack_trace(raw);
    let opts = ReportRenderOptions { stack_trace_max_lines: 2, ..quiet_options() };
    let text = Pretty::new(opts).render_text(&r);
    assert!(text.contains("Stack Trace:\n  - format: Raw\n  - a\n  - b\n  - ... truncated stack trace output\n"));
}

#[test]
fn pretty_source_errors_section() {
    let r = base_report().with_source_error_chain(wrapped_chain());
    let text = Pretty::new(quiet_options()).render_text(&r);
    assert!(text.ends_with(
        "Origin Source Errors:\n  - message: wrapped\n  - type: null\n    - source:\n    - message: auth invalid token\n    - type: app::AuthError\n"
    ));
}

#[test]
fn pretty_display_causes_are_numbered() {
    let r = base_report().with_display_cause("first".to_string()).with_display_cause("second".to_string());
    let text = Pretty::new(quiet_options()).render_text(&r);
    assert!(text.ends_with("Display Causes:\n  1. first\n  2. second\n"));
    let opts = ReportRenderOptions { max_source_depth: 1, ..quiet_options() };
    let text = Pretty::new(opts).render_text(&r);
    assert!(text.ends_with("Display Causes:\n  1. first\n  - ... truncated by max_source_depth\n"));
}

#[test]
fn pretty_trace_section_lists_context_and_events() {
    let tid = HexId::<32>::new("4bf92f3577b34da6a3ce929d0e0e4736".to_string()).expect("valid id");
    let sid = HexId::<16>::new("00f067aa0ba902b7".to_string()).expect("valid id");
    let r = base_report()
        .with_trace_ids(tid, sid)
        .with_trace_event(TraceEvent::named("db.query".to_string()));
    let text = Pretty::new(quiet_options()).render_text(&r);
    assert!(text.contains(
        "Trace:\n  - trace_id: 4bf92f3577b34da6a3ce929d0e0e4736\n  - span_id: 00f067aa0ba902b7\n  - event[0]: db.query\n"
    ));
}

#[test]
fn otel_envelope_has_report_and_trace_records() {
    let tid = HexId::<32>::new("4bf92f3577b34da6a3ce929d0e0e4736".to_string()).expect("valid id");
    let sid = HexId::<16>::new("00f067aa0ba902b7".to_string()).expect("valid id");
    let mut ev = TraceEvent::named("cache.miss".to_string());
    ev.level = Some(TraceEventLevel::Warn);
    let mut r = full_report().with_trace_ids(tid, sid).with_trace_event(ev);
    r.trace = r.trace.set_flags(TraceFlags::new(1));
    let env = r.to_otel_envelope(&OtelEnvelopeConfig::new());
    assert_eq!(env.records.len(), 2);
    let rep = &env.records[0];
    assert_eq!(rep.name, "exception");
    assert_eq!(rep.severity_text.as_deref(), Some("error"));
    assert_eq!(rep.severity_number.map(|n| n.as_u8()), Some(17));
    assert_eq!(rep.trace_flags, Some(1));
    let keys: Vec<&str> = rep.attributes.iter().map(|a| a.key.as_str()).collect();
    assert_eq!(
        keys,
        vec![
            "request_id",
            "attachment.note",
            "attachment.payload.response",
            "attachment.payload.response.media_type",
            "exception.type",
            "exception.message",
            "exception.raw_data",
            "error.code",
            "error.category",
            "error.retryable",
        ]
    );
    let ev = &env.records[1];
    assert_eq!(ev.name, "cache.miss");
    assert_eq!(ev.severity_text.as_deref(), Some("warn"));
    assert_eq!(ev.severity_number.map(|n| n.as_u8()), Some(13));
    assert!(ev.body.is_none());
}

#[test]
fn otel_namespace_prefixes_library_keys() {
    let r = full_report();
    let cfg = OtelEnvelopeConfig::new().with_namespace("dw".to_string());
    let env = r.to_otel_envelope(&cfg);
    let keys: Vec<&str> = env.records[0].attributes.iter().map(|a| a.key.as_str()).collect();
    assert_eq!(keys[0], "dw.context.request_id");
    assert_eq!(keys[1], "dw.attachment.note");
}


fn single_chain(message: &str, type_label: Option<&str>) -> SourceErrorChain {
    let mut c = SourceErrorChain::new();
    let id = c.push_node(SourceErrorItem::new(message.to_string(), type_label.map(|t| t.to_string()), 11));
    c.push_root(id);
    c
}

#[test]
fn render_format_supports_compact_pretty_and_json() {
    let inner = Report::new((), "auth invalid token".to_string(), "report_common::AuthError".to_string())
        .with_error_code(ErrorCode::from_str_code("AUTH.INVALID_TOKEN"))
        .with_retryable(true)
        .with_ctx("request_id".to_string(), AttachmentValue::String("tx-json".to_string()))
        .attach_payload(
            "http.request".to_string(),
            AttachmentValue::Array(vec![
                AttachmentValue::String("GET".to_string()),
                AttachmentValue::String("/session".to_string()),
            ]),
            Some("application/x.debug".to_string()),
        );
    let report = Report::new((), "api unauthorized".to_string(), "report_common::ApiError".to_string())
        .with_source_error_chain(single_chain(
            &inner.to_compact_string(),
            Some("diagweave::report::Report<report_common::AuthError>"),
        ));

    assert_eq!(report.to_compact_string(), "api unauthorized");
    let pretty = Pretty::new(ReportRenderOptions::default_options()).render_text(&report);
    assert!(pretty.contains("Governance:"));

    let json = Json::new(ReportRenderOptions::default_options()).render_text(&report).expect("finite values");
    for key in ["\"schema_version\"", "\"v0.1.0\"", "\"error\"", "\"metadata\"", "\"diagnostic_bag\"", "\"context\"",
        "\"attachments\"", "\"stack_trace\"", "\"display_causes\"", "\"source_errors\""] {
        assert!(json.contains(key), "missing {key}");
    }
    let parsed: serde_json::Value = serde_json::from_str(&json).expect("json schema shape");
    assert_eq!(parsed["schema_version"], diagweave::render::REPORT_JSON_SCHEMA_VERSION);
    assert_eq!(parsed["error"]["message"], "api unauthorized");
    assert!(parsed["metadata"]["error_code"].is_null());
    assert!(parsed["metadata"]["retryable"].is_null());
    assert!(parsed["diagnostic_bag"]["stack_trace"].is_null());
    assert!(parsed["diagnostic_bag"]["display_causes"].is_null());
    assert!(parsed["diagnostic_bag"]["source_errors"].is_object());
    assert!(parsed["trace"].is_null());
    assert_eq!(parsed["attachments"].as_array().map(|a| a.len()), Some(0));
}

#[test]
fn json_source_errors_include_error_type() {
    let mut chain = SourceErrorChain::new();
    let a = chain.push_node(SourceErrorItem::new("auth invalid token".to_string(), Some("report_common::AuthError".to_string()), 1));
    chain.push_root(a);
    let b = chain.push_node(SourceErrorItem::new("network down".to_string(), Some("std::io::error::Error".to_string()), 2));
    chain.push_root(b);
    let report = base_report().with_source_error_chain(chain);
    let json = Json::new(ReportRenderOptions::default_options()).render_text(&report).expect("finite values");
    let parsed: serde_json::Value = serde_json::from_str(&json).expect("json schema shape");
    let items = parsed["diagnostic_bag"]["source_errors"]["items"].as_array().expect("items should be array");
    assert_eq!(items.len(), 2);
    assert_eq!(items[0]["message"], "auth invalid token");
    assert_eq!(items[0]["type"], "report_common::AuthError");
}

#[test]
fn json_source_errors_without_concrete_type_emit_null() {
    let report = base_report().with_source_error_chain(single_chain("loop error", None));
    let json = Json::new(ReportRenderOptions::default_options()).render_text(&report).expect("finite values");
    let parsed: serde_json::Value = serde_json::from_str(&json).expect("json schema shape");
    let items = parsed["diagnostic_bag"]["source_errors"]["items"].as_array().expect("items should be array");
    assert_eq!(items[0]["type"], serde_json::Value::Null);
}

#[test]
fn json_source_errors_hide_internal_report_wrapper_types() {
    let report = base_report()
        .with_source_error_chain(single_chain("auth invalid token", Some("diagweave::report::Report<report_common::AuthError>")));
    let json = Json::new(ReportRenderOptions::default_options()).render_text(&report).expect("finite values");
    let parsed: serde_json::Value = serde_json::from_str(&json).expect("json schema shape");
    let items = parsed["diagnostic_bag"]["source_errors"]["items"].as_array().expect("items should be array");
    assert_eq!(items[0]["type"], serde_json::Value::Null);
}

#[test]
fn json_source_errors_show_depth_truncation() {
    let mut chain = SourceErrorChain::new();
    let a = chain.push_node(SourceErrorItem::new("root cause".to_string(), None, 1));
    let b = chain.push_node(SourceErrorItem::new("wrapper".to_string(), None, 2));
    chain.nodes[b].source_roots.push(a);
    chain.push_root(b);
    let report = base_report().with_source_error_chain(chain);
    let opts = ReportRenderOptions { max_source_depth: 1, ..ReportRenderOptions::default_options() };
    let json = Json::new(opts).render_text(&report).expect("finite values");
    let parsed: serde_json::Value = serde_json::from_str(&json).expect("json schema shape");
    let source = &parsed["diagnostic_bag"]["source_errors"];
    assert_eq!(source["items"].as_array().map(|a| a.len()), Some(1));
    assert!(source["items"][0].get("source").is_none());
    assert_eq!(source["truncated"].as_bool(), Some(true));
    let json = Json::new(ReportRenderOptions::default_options()).render_text(&report).expect("finite values");
    let parsed: serde_json::Value = serde_json::from_str(&json).expect("json schema shape");
    assert_eq!(parsed["diagnostic_bag"]["source_errors"]["truncated"].as_bool(), Some(false));
}

fn traced_report() -> Report<()> {
    let tid = HexId::<32>::new("4bf92f3577b34da6a3ce929d0e0e4736".to_string()).expect("valid id");
    let sid = HexId::<16>::new("00f067aa0ba902b7".to_string()).expect("valid id");
    base_report()
        .with_trace_ids(tid, sid)
        .with_parent_span_id(HexId::<16>::new("1111111111111111".to_string()).unwrap())
        .with_trace_sampled(true)
        .with_trace_state("vendor=blue".to_string())
        .with_trace_flags(TraceFlags::new(1))
        .with_trace_event(TraceEvent {
            name: "db.query".to_string(),
            level: Some(TraceEventLevel::Info),
            timestamp_unix_nano: Some(1_713_337_100_000_000_000),
            attributes: vec![diagweave::trace::TraceEventAttribute {
                key: "db.system".to_string(),
                value: AttachmentValue::String("postgres".to_string()),
            }],
        })
}

#[test]
fn json_trace_section_uses_shared_trace_shape() {
    let json = Json::new(ReportRenderOptions::default_options()).render_text(&traced_report()).expect("finite values");
    let parsed: serde_json::Value = serde_json::from_str(&json).expect("json schema shape");
    let trace = &parsed["trace"];
    assert!(trace.get("error").is_none());
    assert_eq!(trace["context"]["trace_id"].as_str(), Some("4bf92f3577b34da6a3ce929d0e0e4736"));
    assert_eq!(trace["context"]["span_id"].as_str(), Some("00f067aa0ba902b7"));
    assert_eq!(trace["context"]["parent_span_id"].as_str(), Some("1111111111111111"));
    assert_eq!(trace["context"]["sampled"].as_bool(), Some(true));
    assert_eq!(trace["context"]["trace_state"].as_str(), Some("vendor=blue"));
    assert_eq!(trace["context"]["flags"].as_u64(), Some(1));
    assert_eq!(trace["events"].as_array().map(|a| a.len()), Some(1));
    assert_eq!(trace["events"][0]["attributes"][0]["value"]["kind"].as_str(), Some("string"));
}

#[test]
fn json_trace_section_keeps_tagged_trace_values() {
    let report = base_report().with_trace_event(TraceEvent {
        name: "db.query".to_string(),
        level: Some(TraceEventLevel::Warn),
        timestamp_unix_nano: Some(1_713_337_100_000_000_000),
        attributes: vec![
            diagweave::trace::TraceEventAttribute {
                key: "db.statement".to_string(),
                value: AttachmentValue::Redacted { kind: Some("sql".to_string()), reason: Some("sensitive".to_string()) },
            },
            diagweave::trace::TraceEventAttribute { key: "blob".to_string(), value: AttachmentValue::Bytes(vec![1, 2, 3]) },
        ],
    });
    let json = Json::new(ReportRenderOptions::default_options()).render_text(&report).expect("finite values");
    let parsed: serde_json::Value = serde_json::from_str(&json).expect("json schema shape");
    let attrs = parsed["trace"]["events"][0]["attributes"].as_array().expect("attributes");
    assert_eq!(attrs[0]["value"]["kind"].as_str(), Some("redacted"));
    assert_eq!(attrs[0]["value"]["value"]["kind"].as_str(), Some("sql"));
    assert_eq!(attrs[1]["value"]["kind"].as_str(), Some("bytes"));
    assert_eq!(attrs[1]["value"]["value"].as_array().map(|a| a.len()), Some(3));
}

#[test]
fn json_trace_section_rejects_non_finite_floats() {
    let report = base_report().with_trace_event(TraceEvent {
        name: "db.query".to_string(),
        level: Some(TraceEventLevel::Info),
        timestamp_unix_nano: None,
        attributes: vec![diagweave::trace::TraceEventAttribute {
            key: "latency".to_string(),
            value: AttachmentValue::Float(FloatValue::new(f64::INFINITY.to_bits(), "inf".to_string())),
        }],
    });
    assert!(Json::new(ReportRenderOptions::default_options()).render_text(&report).is_none());
}

struct TinyRenderer;

impl<E> ReportRenderer<E> for TinyRenderer {
    fn render(&self, report: &Report<E>) -> Option<String> {
        Some(format!("tiny: {}", report.message))
    }
}

#[test]
fn custom_renderer_trait_is_supported() {
    let report = Report::new((), "auth invalid token".to_string(), "report::AuthError".to_string());
    let rendered = report.render(TinyRenderer).to_text().unwrap();
    assert_eq!(rendered, "tiny: auth invalid token");
}

#[test]
fn rendered_reports_use_the_named_renderer() {
    let report = Report::new((), "auth invalid token".to_string(), "report::AuthError".to_string())
        .with_severity(Severity::Warn);
    assert_eq!(report.compact().to_text().unwrap(), "auth invalid token [severity=warn]");
    assert_eq!(report.render(Compact).to_text().unwrap(), report.to_compact_string());
    assert_eq!(
        report.pretty().to_text().unwrap(),
        Pretty::new(ReportRenderOptions::default_options()).render_text(&report)
    );
    assert_eq!(
        report.json().to_text(),
        Json::new(ReportRenderOptions::default_options()).render_text(&report)
    );
    assert!(report.json().to_text().unwrap().starts_with("{"));
}
