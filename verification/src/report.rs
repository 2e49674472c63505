//! The report: an error wrapped with metadata, context, attachments, stack
//! trace, cause chains and trace data, and its compact one-line rendering.

use vstd::prelude::*;
use crate::attachment::{append_value_text, context_lookup, value_text, Attachment, AttachmentValue, ContextMap, ContextValue, opt_str_model};
use crate::cause::CauseTraversalState;
use crate::config::{CauseCollectOptions, ReportOptions};
use crate::error_code::{error_code_text, ErrorCode};
use crate::severity::{severity_label, Severity};
use crate::source_chain::SourceErrorChain;
use crate::text::{append_i64, append_str};
use crate::trace::{context_is_empty, trace_is_empty, ReportTrace, TraceContext, TraceEvent, TraceId, SpanId};

verus! {

/// How a stack trace was captured.
#[derive(Debug, Clone, Copy, PartialEq, Eq, Structural)]
pub enum StackTraceFormat {
    Native,
    Raw,
}

/// One frame of a stack trace.
#[derive(Debug, PartialEq, Eq)]
pub struct StackFrame {
    pub symbol: Option<String>,
    pub module: Option<String>,
    pub file: Option<String>,
    pub line: Option<u32>,
    pub column: Option<u32>,
}

/// A captured stack trace: frames, raw text, or both.
#[derive(Debug, PartialEq, Eq)]
pub struct StackTrace {
    pub format: StackTraceFormat,
    pub frames: Vec<StackFrame>,
    pub raw: Option<String>,
}

impl StackTrace {
    /// An empty trace of the given format.
    pub fn new(format: StackTraceFormat) -> (r: Self)
        ensures
            r.format == format,
            r.frames@.len() == 0,
            r.raw is None,
    {
        StackTrace { format, frames: Vec::new(), raw: None }
    }

    /// Appends frames after the frames already held.
    pub fn with_frames(self, frames: Vec<StackFrame>) -> (r: Self)
        ensures
            r.format == self.format,
            r.frames@ == self.frames@ + frames@,
            r.raw == self.raw,
    {
        let mut existing = self.frames;
        let mut more = frames;
        existing.append(&mut more);
        StackTrace { format: self.format, frames: existing, raw: self.raw }
    }

    /// Sets the raw text only when none is set.
    pub fn with_raw(self, raw: String) -> (r: Self)
        ensures
            r.format == self.format,
            r.frames == self.frames,
            r.raw == (if self.raw is None { Some(raw) } else { self.raw }),
    {
        if self.raw.is_none() {
            StackTrace { format: self.format, frames: self.frames, raw: Some(raw) }
        } else {
            self
        }
    }
}

/// Human-readable causes attached to a report.
#[derive(Debug, PartialEq, Eq)]
pub struct DisplayCauseChain {
    pub items: Vec<String>,
    pub truncated: bool,
    pub cycle_detected: bool,
}

/// Governance metadata of a report.
#[derive(Debug)]
pub struct ReportMetadata {
    pub error_code: Option<ErrorCode>,
    pub severity: Option<Severity>,
    pub category: Option<String>,
    pub retryable: Option<bool>,
}

/// Whether any metadata field is set.
pub open spec fn has_metadata(m: ReportMetadata) -> bool {
    m.error_code is Some || m.severity is Some || m.category is Some || m.retryable is Some
}

/// System context, in four sections.
#[derive(Debug)]
pub struct SystemContext {
    pub service: ContextMap,
    pub deployment: ContextMap,
    pub runtime: ContextMap,
    pub request: ContextMap,
}

/// The entries of the system context: its sections in order, each by key.
pub open spec fn system_entries(s: SystemContext) -> Seq<(String, ContextValue)> {
    s.service.entries() + s.deployment.entries() + s.runtime.entries() + s.request.entries()
}

impl SystemContext {
    /// A system context with empty sections.
    pub fn new() -> (r: Self)
        ensures
            system_entries(r).len() == 0,
    {
        SystemContext { service: ContextMap::new(), deployment: ContextMap::new(), runtime: ContextMap::new(), request: ContextMap::new() }
    }

    /// Whether every section is empty.
    pub fn is_empty(&self) -> (r: bool)
        ensures
            r == (system_entries(*self).len() == 0),
    {
        self.service.is_empty() && self.deployment.is_empty() && self.runtime.is_empty() && self.request.is_empty()
    }
}

/// An error wrapped with everything known about it.
pub struct Report<E> {
    /// The wrapped error.
    pub inner: E,
    /// The wrapped error's `Display` text.
    pub message: String,
    /// The wrapped error's type name.
    pub type_label: String,
    pub metadata: ReportMetadata,
    pub stack_trace: Option<StackTrace>,
    pub context: ContextMap,
    pub system: SystemContext,
    pub attachments: Vec<Attachment>,
    pub display_causes: Option<DisplayCauseChain>,
    pub origin_source_errors: Option<SourceErrorChain>,
    pub diagnostic_source_errors: Option<SourceErrorChain>,
    pub trace: ReportTrace,
    pub options: ReportOptions,
}

/// Whether the report carries any diagnostics beyond its metadata.
pub open spec fn has_diagnostics<E>(r: Report<E>) -> bool {
    r.stack_trace is Some || r.context.entries().len() > 0 || system_entries(r.system).len() > 0
        || r.attachments@.len() > 0 || !trace_is_empty(r.trace)
}

impl<E> Report<E> {
    /// A report around `inner`, whose text is `message` and whose type is
    /// named `type_label`, with nothing else set.
    pub fn new(inner: E, message: String, type_label: String) -> (r: Self)
        ensures
            r.inner == inner,
            r.message == message,
            r.type_label == type_label,
            !has_metadata(r.metadata),
            !has_diagnostics(r),
            r.display_causes is None,
            r.origin_source_errors is None,
            r.diagnostic_source_errors is None,
            r.options == (ReportOptions { accumulate_source_chain: None, max_depth: None, detect_cycle: None }),
    {
        Report {
            inner,
            message,
            type_label,
            metadata: ReportMetadata { error_code: None, severity: None, category: None, retryable: None },
            stack_trace: None,
            context: ContextMap::new(),
            system: SystemContext::new(),
            attachments: Vec::new(),
            display_causes: None,
            origin_source_errors: None,
            diagnostic_source_errors: None,
            trace: ReportTrace::new(),
            options: ReportOptions::new(),
        }
    }

    /// The wrapped error.
    pub fn inner(&self) -> (r: &E)
        ensures
            *r == self.inner,
    {
        &self.inner
    }

    /// The severity, if set.
    pub fn severity(&self) -> (r: Option<Severity>)
        ensures
            r == self.metadata.severity,
    {
        self.metadata.severity
    }

    /// Replaces the error code.
    pub fn set_error_code(self, code: ErrorCode) -> (r: Self)
        ensures
            r == (Report { metadata: r.metadata, ..self }),
            r.metadata.error_code == Some(code),
            r.metadata.severity == self.metadata.severity,
            r.metadata.category == self.metadata.category,
            r.metadata.retryable == self.metadata.retryable,
            r.attachments == self.attachments,
            r.message == self.message,
    {
        let mut s = self;
        s.metadata.error_code = Some(code);
        s
    }

    /// Sets the error code only when none is set.
    pub fn with_error_code(self, code: ErrorCode) -> (r: Self)
        ensures
            r == (Report { metadata: r.metadata, ..self }),
            r.metadata.error_code == (if self.metadata.error_code is None { Some(code) } else { self.metadata.error_code }),
            r.metadata.severity == self.metadata.severity,
            r.metadata.category == self.metadata.category,
            r.metadata.retryable == self.metadata.retryable,
            r.attachments == self.attachments,
            r.message == self.message,
    {
        if self.metadata.error_code.is_none() { self.set_error_code(code) } else { self }
    }

    /// Replaces the severity.
    pub fn set_severity(self, severity: Severity) -> (r: Self)
        ensures
            r == (Report { metadata: r.metadata, ..self }),
            r.metadata.severity == Some(severity),
            r.metadata.error_code == self.metadata.error_code,
            r.metadata.category == self.metadata.category,
            r.metadata.retryable == self.metadata.retryable,
            r.attachments == self.attachments,
            r.message == self.message,
    {
        let mut s = self;
        s.metadata.severity = Some(severity);
        s
    }

    /// Sets the severity only when none is set.
    pub fn with_severity(self, severity: Severity) -> (r: Self)
        ensures
            r == (Report { metadata: r.metadata, ..self }),
            r.metadata.severity == (if self.metadata.severity is None { Some(severity) } else { self.metadata.severity }),
            r.metadata.error_code == self.metadata.error_code,
            r.metadata.category == self.metadata.category,
            r.metadata.retryable == self.metadata.retryable,
            r.attachments == self.attachments,
            r.message == self.message,
    {
        if self.metadata.severity.is_none() { self.set_severity(severity) } else { self }
    }

    /// Sets the category only when none is set.
    pub fn with_category(self, category: String) -> (r: Self)
        ensures
            r == (Report { metadata: r.metadata, ..self }),
            r.metadata.category == (if self.metadata.category is None { Some(category) } else { self.metadata.category }),
            r.metadata.error_code == self.metadata.error_code,
            r.metadata.severity == self.metadata.severity,
            r.metadata.retryable == self.metadata.retryable,
            r.attachments == self.attachments,
            r.message == self.message,
    {
        let mut s = self;
        if s.metadata.category.is_none() {
            s.metadata.category = Some(category);
        }
        s
    }

    /// Sets whether the error is retryable, only when not yet set.
    pub fn with_retryable(self, retryable: bool) -> (r: Self)
        ensures
            r == (Report { metadata: r.metadata, ..self }),
            r.metadata.retryable == (if self.metadata.retryable is None { Some(retryable) } else { self.metadata.retryable }),
            r.metadata.error_code == self.metadata.error_code,
            r.metadata.severity == self.metadata.severity,
            r.metadata.category == self.metadata.category,
            r.attachments == self.attachments,
            r.message == self.message,
    {
        let mut s = self;
        if s.metadata.retryable.is_none() {
            s.metadata.retryable = Some(retryable);
        }
        s
    }

    /// Adds a context entry; a later value for the same key replaces the earlier.
    pub fn with_ctx(self, key: String, value: ContextValue) -> (r: Self)
        ensures
            r == (Report { context: r.context, ..self }),
            crate::attachment::stored_under_key(self.context.entries(), r.context.entries(), (key, value)),
            context_lookup(r.context.entries(), key@) == Some(value),
            forall|k: Seq<char>| k != key@ ==> #[trigger] context_lookup(r.context.entries(), k) == context_lookup(self.context.entries(), k),
            r.attachments == self.attachments,
            r.message == self.message,
            r.metadata == self.metadata,
    {
        let mut s = self;
        s.context.insert(key, value);
        s
    }

    /// Adds a system context entry to the runtime section.
    pub fn with_system(self, key: String, value: ContextValue) -> (r: Self)
        ensures
            r == (Report { system: r.system, ..self }),
            crate::attachment::stored_under_key(self.system.runtime.entries(), r.system.runtime.entries(), (key, value)),
            context_lookup(r.system.runtime.entries(), key@) == Some(value),
            forall|k: Seq<char>| k != key@ ==> #[trigger] context_lookup(r.system.runtime.entries(), k) == context_lookup(self.system.runtime.entries(), k),
            r.system.service == self.system.service,
            r.system.deployment == self.system.deployment,
            r.system.request == self.system.request,
            r.context == self.context,
            r.attachments == self.attachments,
            r.message == self.message,
    {
        let mut s = self;
        s.system.runtime.insert(key, value);
        s
    }

    /// Appends a note.
    pub fn attach_note(self, message: String) -> (r: Self)
        ensures
            r == (Report { attachments: r.attachments, ..self }),
            r.attachments@ == self.attachments@.push(Attachment::Note { message }),
            r.context == self.context,
            r.message == self.message,
            r.metadata == self.metadata,
    {
        let mut s = self;
        s.attachments.push(Attachment::Note { message });
        s
    }

    /// Appends a payload.
    pub fn attach_payload(self, name: String, value: AttachmentValue, media_type: Option<String>) -> (r: Self)
        ensures
            r == (Report { attachments: r.attachments, ..self }),
            r.attachments@ == self.attachments@.push(Attachment::Payload { name, value, media_type }),
            r.context == self.context,
            r.message == self.message,
            r.metadata == self.metadata,
    {
        let mut s = self;
        s.attachments.push(Attachment::Payload { name, value, media_type });
        s
    }

    /// Appends a display cause.
    pub fn with_display_cause(self, cause: String) -> (r: Self)
        ensures
            r == (Report { display_causes: r.display_causes, ..self }),
            r.display_causes matches Some(c) && c.items@ == (match self.display_causes {
                Some(d) => d.items@,
                None => Seq::empty(),
            }).push(cause),
            r.display_causes->0.truncated == (self.display_causes matches Some(d) && d.truncated),
            r.display_causes->0.cycle_detected == (self.display_causes matches Some(d) && d.cycle_detected),
            r.message == self.message,
            r.metadata == self.metadata,
    {
        let mut s = self;
        let mut chain = match s.display_causes.take() {
            Some(c) => c,
            None => DisplayCauseChain { items: Vec::new(), truncated: false, cycle_detected: false },
        };
        chain.items.push(cause);
        s.display_causes = Some(chain);
        s
    }

    /// Replaces the display-cause chain.
    pub fn with_display_cause_chain(self, chain: DisplayCauseChain) -> (r: Self)
        ensures
            r == (Report { display_causes: r.display_causes, ..self }),
            r.display_causes == Some(chain),
            r.message == self.message,
            r.metadata == self.metadata,
    {
        let mut s = self;
        s.display_causes = Some(chain);
        s
    }

    /// Replaces the origin source-error chain.
    pub fn with_source_error_chain(self, chain: SourceErrorChain) -> (r: Self)
        ensures
            r == (Report { origin_source_errors: r.origin_source_errors, ..self }),
            r.origin_source_errors == Some(chain),
            r.diagnostic_source_errors == self.diagnostic_source_errors,
            r.message == self.message,
            r.metadata == self.metadata,
    {
        let mut s = self;
        s.origin_source_errors = Some(chain);
        s
    }

    /// Replaces the diagnostic source-error chain.
    pub fn with_diag_src_err_chain(self, chain: SourceErrorChain) -> (r: Self)
        ensures
            r == (Report { diagnostic_source_errors: r.diagnostic_source_errors, ..self }),
            r.diagnostic_source_errors == Some(chain),
            r.origin_source_errors == self.origin_source_errors,
            r.message == self.message,
            r.metadata == self.metadata,
    {
        let mut s = self;
        s.diagnostic_source_errors = Some(chain);
        s
    }

    /// Sets the stack trace only when none is set.
    pub fn with_stack_trace(self, stack_trace: StackTrace) -> (r: Self)
        ensures
            r == (Report { stack_trace: r.stack_trace, ..self }),
            r.stack_trace == (if self.stack_trace is None { Some(stack_trace) } else { self.stack_trace }),
            r.message == self.message,
            r.metadata == self.metadata,
    {
        let mut s = self;
        if s.stack_trace.is_none() {
            s.stack_trace = Some(stack_trace);
        }
        s
    }

    /// Replaces the report-level options.
    pub fn set_options(self, options: ReportOptions) -> (r: Self)
        ensures
            r == (Report { options: r.options, ..self }),
            r.options == options,
            r.message == self.message,
            r.metadata == self.metadata,
    {
        let mut s = self;
        s.options = options;
        s
    }

    /// Replaces whether the origin source chain accumulates on `map_err`.
    pub fn set_accumulate_source_chain(self, accumulate: bool) -> (r: Self)
        ensures
            r == (Report { options: r.options, ..self }),
            r.options.accumulate_source_chain == Some(accumulate),
            r.options.max_depth == self.options.max_depth,
            r.options.detect_cycle == self.options.detect_cycle,
            r.message == self.message,
            r.metadata == self.metadata,
    {
        let mut s = self;
        s.options.accumulate_source_chain = Some(accumulate);
        s
    }

    /// Sets the trace only when the current one is empty.
    pub fn with_trace(self, trace: ReportTrace) -> (r: Self)
        ensures
            r == (Report { trace: r.trace, ..self }),
            r.trace == (if trace_is_empty(self.trace) { trace } else { self.trace }),
            r.message == self.message,
            r.metadata == self.metadata,
    {
        let mut s = self;
        if s.trace.is_empty() {
            s.trace = trace;
        }
        s
    }

    /// Sets the trace and span ids where they are not set yet.
    pub fn with_trace_ids(self, trace_id: TraceId, span_id: SpanId) -> (r: Self)
        ensures
            r == (Report { trace: r.trace, ..self }),
            crate::trace::trace_context_or_empty(r.trace).trace_id == (if crate::trace::trace_context_or_empty(self.trace).trace_id is None {
                Some(trace_id) } else { crate::trace::trace_context_or_empty(self.trace).trace_id }),
            crate::trace::trace_context_or_empty(r.trace).span_id == (if crate::trace::trace_context_or_empty(self.trace).span_id is None {
                Some(span_id) } else { crate::trace::trace_context_or_empty(self.trace).span_id }),
            r.trace.events == self.trace.events,
            crate::trace::trace_context_or_empty(r.trace).parent_span_id == crate::trace::trace_context_or_empty(self.trace).parent_span_id,
            crate::trace::trace_context_or_empty(r.trace).sampled == crate::trace::trace_context_or_empty(self.trace).sampled,
            crate::trace::trace_context_or_empty(r.trace).trace_state == crate::trace::trace_context_or_empty(self.trace).trace_state,
            crate::trace::trace_context_or_empty(r.trace).flags == crate::trace::trace_context_or_empty(self.trace).flags,
            r.message == self.message,
            r.metadata == self.metadata,
    {
        let mut s = self;
        let mut t = ReportTrace::new();
        std::mem::swap(&mut t, &mut s.trace);
        s.trace = t.with_trace_id(trace_id).with_span_id(span_id);
        s
    }

    /// Appends a trace event.
    pub fn with_trace_event(self, event: TraceEvent) -> (r: Self)
        ensures
            r == (Report { trace: r.trace, ..self }),
            r.trace.events@ == self.trace.events@.push(event),
            r.trace.context == self.trace.context,
            r.message == self.message,
            r.metadata == self.metadata,
    {
        let mut s = self;
        s.trace.events.push(event);
        s
    }

}

/// `parts` joined by `", "`.
pub open spec fn join_fields(parts: Seq<Seq<char>>) -> Seq<char>
    decreases parts.len(),
{
    if parts.len() == 0 {
        Seq::empty()
    } else if parts.len() == 1 {
        parts[0]
    } else {
        join_fields(parts.drop_last()) + ", "@ + parts.last()
    }
}

pub open spec fn bool_text(b: bool) -> Seq<char> {
    if b { "true"@ } else { "false"@ }
}

/// The `code=`, `severity=`, `category=` and `retryable=` fields that are set.
pub open spec fn metadata_fields(m: ReportMetadata) -> Seq<Seq<char>> {
    let a = match m.error_code { Some(c) => seq!["code="@ + error_code_text(c@)], None => Seq::empty() };
    let b = match m.severity { Some(s) => seq!["severity="@ + severity_label(s)], None => Seq::empty() };
    let c = match m.category { Some(c) => seq!["category="@ + c@], None => Seq::empty() };
    let d = match m.retryable { Some(r) => seq!["retryable="@ + bool_text(r)], None => Seq::empty() };
    a + b + c + d
}

/// `key=value` for each entry, with `prefix` before the key.
pub open spec fn entry_fields(prefix: Seq<char>, entries: Seq<(String, ContextValue)>) -> Seq<Seq<char>>
    decreases entries.len(),
{
    if entries.len() == 0 {
        Seq::empty()
    } else {
        entry_fields(prefix, entries.drop_last()).push(prefix + entries.last().0@ + "="@ + value_text(entries.last().1@))
    }
}

/// A note as its message; a payload as `name=value`, with ` (media type)`.
pub open spec fn attachment_field(a: Attachment) -> Seq<char> {
    match a {
        Attachment::Note { message } => message@,
        Attachment::Payload { name, value, media_type } => match media_type {
            Some(mt) => name@ + "="@ + value_text(value@) + " ("@ + mt@ + ")"@,
            None => name@ + "="@ + value_text(value@),
        },
    }
}

pub open spec fn attachment_fields(atts: Seq<Attachment>) -> Seq<Seq<char>>
    decreases atts.len(),
{
    if atts.len() == 0 {
        Seq::empty()
    } else {
        attachment_fields(atts.drop_last()).push(attachment_field(atts.last()))
    }
}

/// The trace id and span id fields, when the trace has them.
pub open spec fn trace_fields(t: ReportTrace) -> Seq<Seq<char>> {
    match t.context {
        Some(c) => {
            let a = match c.trace_id { Some(id) => seq!["trace_id="@ + id@], None => Seq::empty() };
            let b = match c.span_id { Some(id) => seq!["span_id="@ + id@], None => Seq::empty() };
            a + b
        },
        None => Seq::empty(),
    }
}

/// Every field of the compact rendering, in order.
pub open spec fn compact_fields<E>(r: Report<E>) -> Seq<Seq<char>> {
    metadata_fields(r.metadata)
        + trace_fields(r.trace)
        + (if r.stack_trace is Some { seq!["stack_trace=present"@] } else { Seq::empty() })
        + entry_fields(Seq::empty(), r.context.entries())
        + entry_fields("system."@, system_entries(r.system))
        + attachment_fields(r.attachments@)
}

/// The compact rendering: the error's text, then ` [fields]` when the report
/// carries metadata or diagnostics.
pub open spec fn compact_text<E>(r: Report<E>) -> Seq<char> {
    if !has_diagnostics(r) && !has_metadata(r.metadata) {
        r.message@
    } else {
        r.message@ + " ["@ + join_fields(compact_fields(r)) + "]"@
    }
}

proof fn lemma_join_push(parts: Seq<Seq<char>>, f: Seq<char>)
    ensures
        join_fields(parts.push(f)) == join_fields(parts) + (if parts.len() > 0 { ", "@ } else { Seq::<char>::empty() }) + f,
{
    assert(parts.push(f).drop_last() =~= parts);
    if parts.len() == 0 {
        assert(parts.push(f)[0] == f);
        assert(join_fields(parts) =~= Seq::<char>::empty());
        assert(Seq::<char>::empty() + Seq::<char>::empty() + f =~= f);
    }
}

proof fn lemma_entry_fields_step(prefix: Seq<char>, entries: Seq<(String, ContextValue)>, i: int)
    requires
        0 <= i < entries.len(),
    ensures
        entry_fields(prefix, entries.take(i + 1)) == entry_fields(prefix, entries.take(i)).push(
            prefix + entries[i].0@ + "="@ + value_text(entries[i].1@)),
{
    assert(entries.take(i + 1).drop_last() =~= entries.take(i));
}

proof fn lemma_attachment_fields_step(atts: Seq<Attachment>, i: int)
    requires
        0 <= i < atts.len(),
    ensures
        attachment_fields(atts.take(i + 1)) == attachment_fields(atts.take(i)).push(attachment_field(atts[i])),
{
    assert(atts.take(i + 1).drop_last() =~= atts.take(i));
}

/// Writes the separator before a field: nothing before the first.
fn field_sep(out: &mut String, first: bool)
    ensures
        final(out)@ == old(out)@ + (if first { Seq::<char>::empty() } else { ", "@ }),
{
    if !first {
        append_str(out, ", ");
    } else {
        assert(old(out)@ + Seq::<char>::empty() =~= old(out)@);
    }
}

fn append_bool(out: &mut String, b: bool)
    ensures
        final(out)@ == old(out)@ + bool_text(b),
{
    if b { append_str(out, "true") } else { append_str(out, "false") }
}

fn append_error_code(out: &mut String, code: &ErrorCode)
    ensures
        final(out)@ == old(out)@ + error_code_text(code@),
{
    match code {
        ErrorCode::Integer(v) => append_i64(out, *v),
        ErrorCode::String(s) => append_str(out, s.as_str()),
    }
}

/// Appends `key=value` fields (with `prefix` before each key) for `entries`.
fn append_entry_fields(out: &mut String, first: &mut bool, Ghost(base): Ghost<Seq<char>>, Ghost(parts): Ghost<Seq<Seq<char>>>,
    prefix: &str, entries: &Vec<(String, ContextValue)>) -> (r: Ghost<Seq<Seq<char>>>)
    requires
        old(out)@ == base + join_fields(parts),
        *old(first) == (parts.len() == 0),
    ensures
        r@ == parts + entry_fields(prefix@, entries@),
        final(out)@ == base + join_fields(r@),
        *final(first) == (r@.len() == 0),
{
    let ghost mut cur = parts;
    let mut i: usize = 0;
    proof {
        assert(entries@.take(0) =~= Seq::<(String, ContextValue)>::empty());
        assert(parts + entry_fields(prefix@, entries@.take(0)) =~= parts);
    }
    while i < entries.len()
        invariant
            i <= entries@.len(),
            cur == parts + entry_fields(prefix@, entries@.take(i as int)),
            out@ == base + join_fields(cur),
            *first == (cur.len() == 0),
        decreases entries@.len() - i,
    {
        let ghost f = prefix@ + entries@[i as int].0@ + "="@ + value_text(entries@[i as int].1@);
        field_sep(out, *first);
        append_str(out, prefix);
        append_str(out, entries[i].0.as_str());
        append_str(out, "=");
        append_value_text(out, &entries[i].1);
        proof {
            lemma_join_push(cur, f);
            lemma_entry_fields_step(prefix@, entries@, i as int);
            assert(cur.push(f) =~= parts + entry_fields(prefix@, entries@.take(i as int + 1)));
            cur = cur.push(f);
        }
        *first = false;
        i = i + 1;
    }
    proof {
        assert(entries@.take(entries@.len() as int) =~= entries@);
    }
    Ghost(cur)
}

/// Appends one optional metadata field: `label` then the value's text.
fn append_code_field(out: &mut String, first: &mut bool, Ghost(base): Ghost<Seq<char>>, Ghost(parts): Ghost<Seq<Seq<char>>>,
    code: &Option<ErrorCode>) -> (r: Ghost<Seq<Seq<char>>>)
    requires
        old(out)@ == base + join_fields(parts),
        *old(first) == (parts.len() == 0),
    ensures
        r@ == parts + (match *code { Some(c) => seq!["code="@ + error_code_text(c@)], None => Seq::empty() }),
        final(out)@ == base + join_fields(r@),
        *final(first) == (r@.len() == 0),
{
    match code {
        Some(c) => {
            let ghost f = "code="@ + error_code_text(c@);
            field_sep(out, *first);
            append_str(out, "code=");
            append_error_code(out, c);
            proof {
                lemma_join_push(parts, f);
                assert(out@ =~= base + join_fields(parts.push(f)));
                assert(parts.push(f) =~= parts + seq![f]);
            }
            *first = false;
            Ghost(parts.push(f))
        },
        None => {
            proof { assert(parts + Seq::<Seq<char>>::empty() =~= parts); }
            Ghost(parts)
        },
    }
}

fn append_severity_field(out: &mut String, first: &mut bool, Ghost(base): Ghost<Seq<char>>, Ghost(parts): Ghost<Seq<Seq<char>>>,
    severity: Option<Severity>) -> (r: Ghost<Seq<Seq<char>>>)
    requires
        old(out)@ == base + join_fields(parts),
        *old(first) == (parts.len() == 0),
    ensures
        r@ == parts + (match severity { Some(s) => seq!["severity="@ + severity_label(s)], None => Seq::empty() }),
        final(out)@ == base + join_fields(r@),
        *final(first) == (r@.len() == 0),
{
    match severity {
        Some(sev) => {
            let ghost f = "severity="@ + severity_label(sev);
            field_sep(out, *first);
            append_str(out, "severity=");
            append_str(out, sev.label());
            proof {
                lemma_join_push(parts, f);
                assert(out@ =~= base + join_fields(parts.push(f)));
                assert(parts.push(f) =~= parts + seq![f]);
            }
            *first = false;
            Ghost(parts.push(f))
        },
        None => {
            proof { assert(parts + Seq::<Seq<char>>::empty() =~= parts); }
            Ghost(parts)
        },
    }
}

fn append_category_field(out: &mut String, first: &mut bool, Ghost(base): Ghost<Seq<char>>, Ghost(parts): Ghost<Seq<Seq<char>>>,
    category: &Option<String>) -> (r: Ghost<Seq<Seq<char>>>)
    requires
        old(out)@ == base + join_fields(parts),
        *old(first) == (parts.len() == 0),
    ensures
        r@ == parts + (match *category { Some(c) => seq!["category="@ + c@], None => Seq::empty() }),
        final(out)@ == base + join_fields(r@),
        *final(first) == (r@.len() == 0),
{
    match category {
        Some(cat) => {
            let ghost f = "category="@ + cat@;
            field_sep(out, *first);
            append_str(out, "category=");
            append_str(out, cat.as_str());
            proof {
                lemma_join_push(parts, f);
                assert(out@ =~= base + join_fields(parts.push(f)));
                assert(parts.push(f) =~= parts + seq![f]);
            }
            *first = false;
            Ghost(parts.push(f))
        },
        None => {
            proof { assert(parts + Seq::<Seq<char>>::empty() =~= parts); }
            Ghost(parts)
        },
    }
}

fn append_retryable_field(out: &mut String, first: &mut bool, Ghost(base): Ghost<Seq<char>>, Ghost(parts): Ghost<Seq<Seq<char>>>,
    retryable: Option<bool>) -> (r: Ghost<Seq<Seq<char>>>)
    requires
        old(out)@ == base + join_fields(parts),
        *old(first) == (parts.len() == 0),
    ensures
        r@ == parts + (match retryable { Some(b) => seq!["retryable="@ + bool_text(b)], None => Seq::empty() }),
        final(out)@ == base + join_fields(r@),
        *final(first) == (r@.len() == 0),
{
    match retryable {
        Some(ret) => {
            let ghost f = "retryable="@ + bool_text(ret);
            field_sep(out, *first);
            append_str(out, "retryable=");
            append_bool(out, ret);
            proof {
                lemma_join_push(parts, f);
                assert(out@ =~= base + join_fields(parts.push(f)));
                assert(parts.push(f) =~= parts + seq![f]);
            }
            *first = false;
            Ghost(parts.push(f))
        },
        None => {
            proof { assert(parts + Seq::<Seq<char>>::empty() =~= parts); }
            Ghost(parts)
        },
    }
}

fn append_metadata_fields(out: &mut String, first: &mut bool, Ghost(base): Ghost<Seq<char>>, Ghost(parts): Ghost<Seq<Seq<char>>>,
    m: &ReportMetadata) -> (r: Ghost<Seq<Seq<char>>>)
    requires
        old(out)@ == base + join_fields(parts),
        *old(first) == (parts.len() == 0),
    ensures
        r@ == parts + metadata_fields(*m),
        final(out)@ == base + join_fields(r@),
        *final(first) == (r@.len() == 0),
{
    let Ghost(a) = append_code_field(out, first, Ghost(base), Ghost(parts), &m.error_code);
    let Ghost(b) = append_severity_field(out, first, Ghost(base), Ghost(a), m.severity);
    let Ghost(c) = append_category_field(out, first, Ghost(base), Ghost(b), &m.category);
    let Ghost(d) = append_retryable_field(out, first, Ghost(base), Ghost(c), m.retryable);
    proof {
        assert(d =~= parts + metadata_fields(*m));
    }
    Ghost(d)
}

fn append_trace_fields(out: &mut String, first: &mut bool, Ghost(base): Ghost<Seq<char>>, Ghost(parts): Ghost<Seq<Seq<char>>>,
    t: &ReportTrace) -> (r: Ghost<Seq<Seq<char>>>)
    requires
        old(out)@ == base + join_fields(parts),
        *old(first) == (parts.len() == 0),
    ensures
        r@ == parts + trace_fields(*t),
        final(out)@ == base + join_fields(r@),
        *final(first) == (r@.len() == 0),
{
    let ghost mut cur = parts;
    if let Some(c) = &t.context {
        if let Some(id) = &c.trace_id {
            let ghost f = "trace_id="@ + id@;
            field_sep(out, *first);
            append_str(out, "trace_id=");
            append_str(out, id.as_str());
            proof {
                lemma_join_push(cur, f);
                assert(out@ =~= base + join_fields(cur.push(f)));
                cur = cur.push(f);
            }
            *first = false;
        }
        if let Some(id) = &c.span_id {
            let ghost f = "span_id="@ + id@;
            field_sep(out, *first);
            append_str(out, "span_id=");
            append_str(out, id.as_str());
            proof {
                lemma_join_push(cur, f);
                assert(out@ =~= base + join_fields(cur.push(f)));
                cur = cur.push(f);
            }
            *first = false;
        }
    }
    proof {
        assert(cur =~= parts + trace_fields(*t));
    }
    Ghost(cur)
}

fn append_attachment_fields(out: &mut String, first: &mut bool, Ghost(base): Ghost<Seq<char>>, Ghost(parts): Ghost<Seq<Seq<char>>>,
    atts: &Vec<Attachment>) -> (r: Ghost<Seq<Seq<char>>>)
    requires
        old(out)@ == base + join_fields(parts),
        *old(first) == (parts.len() == 0),
    ensures
        r@ == parts + attachment_fields(atts@),
        final(out)@ == base + join_fields(r@),
        *final(first) == (r@.len() == 0),
{
    let ghost mut cur = parts;
    let mut i: usize = 0;
    proof {
        assert(atts@.take(0) =~= Seq::<Attachment>::empty());
        assert(parts + attachment_fields(atts@.take(0)) =~= parts);
    }
    while i < atts.len()
        invariant
            i <= atts@.len(),
            cur == parts + attachment_fields(atts@.take(i as int)),
            out@ == base + join_fields(cur),
            *first == (cur.len() == 0),
        decreases atts@.len() - i,
    {
        let ghost f = attachment_field(atts@[i as int]);
        field_sep(out, *first);
        match &atts[i] {
            Attachment::Note { message } => {
                append_str(out, message.as_str());
            },
            Attachment::Payload { name, value, media_type } => {
                append_str(out, name.as_str());
                append_str(out, "=");
                append_value_text(out, value);
                match media_type {
                    Some(mt) => {
                        append_str(out, " (");
                        append_str(out, mt.as_str());
                        append_str(out, ")");
                    },
                    None => {},
                }
            },
        }
        proof {
            lemma_join_push(cur, f);
            lemma_attachment_fields_step(atts@, i as int);
            assert(cur.push(f) =~= parts + attachment_fields(atts@.take(i as int + 1)));
            cur = cur.push(f);
        }
        *first = false;
        i = i + 1;
    }
    proof {
        assert(atts@.take(atts@.len() as int) =~= atts@);
    }
    Ghost(cur)
}

/// Appends every compact field of `r` after `parts` (empty) at `base`.
#[verifier::spinoff_prover]
fn append_compact_fields<E>(out: &mut String, first: &mut bool, Ghost(base): Ghost<Seq<char>>, r: &Report<E>) -> (p: Ghost<Seq<Seq<char>>>)
    requires
        old(out)@ == base,
        *old(first),
    ensures
        p@ == compact_fields(*r),
        final(out)@ == base + join_fields(p@),
{
    proof {
        assert(base + join_fields(Seq::empty()) =~= base);
    }
    let Ghost(p0) = append_metadata_fields(out, first, Ghost(base), Ghost(Seq::empty()), &r.metadata);
    let Ghost(p1) = append_trace_fields(out, first, Ghost(base), Ghost(p0), &r.trace);
    let ghost mut p2 = p1;
    if r.stack_trace.is_some() {
        let ghost f = "stack_trace=present"@;
        field_sep(out, *first);
        append_str(out, "stack_trace=present");
        proof {
            lemma_join_push(p2, f);
            assert(out@ =~= base + join_fields(p2.push(f)));
            p2 = p2.push(f);
        }
        *first = false;
    }
    let Ghost(p3) = append_entry_fields(out, first, Ghost(base), Ghost(p2), "", r.context.sorted_entries());
    let Ghost(p4) = append_entry_fields(out, first, Ghost(base), Ghost(p3), "system.", r.system.service.sorted_entries());
    let Ghost(p5) = append_entry_fields(out, first, Ghost(base), Ghost(p4), "system.", r.system.deployment.sorted_entries());
    let Ghost(p6) = append_entry_fields(out, first, Ghost(base), Ghost(p5), "system.", r.system.runtime.sorted_entries());
    let Ghost(p7) = append_entry_fields(out, first, Ghost(base), Ghost(p6), "system.", r.system.request.sorted_entries());
    let Ghost(p8) = append_attachment_fields(out, first, Ghost(base), Ghost(p7), &r.attachments);
    proof {
        reveal_strlit("");
        assert(""@ =~= Seq::<char>::empty());
        lemma_entry_fields_concat("system."@, r.system.service.entries(), r.system.deployment.entries());
        lemma_entry_fields_concat("system."@, r.system.service.entries() + r.system.deployment.entries(), r.system.runtime.entries());
        lemma_entry_fields_concat("system."@, r.system.service.entries() + r.system.deployment.entries() + r.system.runtime.entries(), r.system.request.entries());
        assert(p8 =~= compact_fields(*r));
    }
    Ghost(p8)
}

impl<E> Report<E> {
    /// The compact one-line rendering: the error's text, then the set
    /// metadata and diagnostics as `[field, field, ...]`.
    pub fn to_compact_string(&self) -> (r: String)
        ensures
            r@ == compact_text(*self),
    {
        let mut out = String::new();
        append_str(&mut out, self.message.as_str());
        let has_meta = self.metadata.error_code.is_some() || self.metadata.severity.is_some()
            || self.metadata.category.is_some() || self.metadata.retryable.is_some();
        let has_diag = self.stack_trace.is_some() || !self.context.is_empty() || !self.system.is_empty()
            || self.attachments.len() > 0 || !self.trace.is_empty();
        if !has_diag && !has_meta {
            proof {
                assert(out@ =~= self.message@);
            }
            return out;
        }
        append_str(&mut out, " [");
        let ghost base = out@;
        let mut first = true;
        let Ghost(p) = append_compact_fields(&mut out, &mut first, Ghost(base), self);
        append_str(&mut out, "]");
        proof {
            assert(out@ =~= compact_text(*self));
        }
        out
    }
}

proof fn lemma_entry_fields_concat(prefix: Seq<char>, a: Seq<(String, ContextValue)>, b: Seq<(String, ContextValue)>)
    ensures
        entry_fields(prefix, a + b) == entry_fields(prefix, a) + entry_fields(prefix, b),
    decreases b.len(),
{
    if b.len() == 0 {
        assert(a + b =~= a);
        assert(entry_fields(prefix, a) + entry_fields(prefix, b) =~= entry_fields(prefix, a));
    } else {
        assert((a + b).drop_last() =~= a + b.drop_last());
        lemma_entry_fields_concat(prefix, a, b.drop_last());
        assert((a + b).last() == b.last());
        assert(entry_fields(prefix, a) + entry_fields(prefix, b) =~= (entry_fields(prefix, a) + entry_fields(prefix, b.drop_last())).push(
            prefix + b.last().0@ + "="@ + value_text(b.last().1@)));
    }
}

} // verus!
