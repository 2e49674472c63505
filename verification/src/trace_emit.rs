//! What a report hands to a tracing backend: its structured fields, and the
//! level of every record it emits, resolved before emission.

use vstd::prelude::*;
use crate::attachment::{items_model, AttachmentValue, ValueModel};
use crate::cause::CauseTraversalState;
use crate::error_code::ErrorCode;
use crate::ir_values::{
    attachment_items_model, build_ctx_and_attachments, build_display_causes_value, build_error_value,
    build_source_chain_value, build_stack_trace_value, build_trace_value, context_items_model, display_causes_model,
    error_model, source_chain_entries, stack_trace_model, trace_model,
};
use crate::report::Report;
use crate::severity::{severity_label, Severity};
use crate::text::str_to_string;
use crate::trace::{trace_is_empty, TraceEvent, TraceEventLevel};

verus! {

/// The level a tracing record is emitted at.
#[derive(Debug, Clone, Copy, PartialEq, Eq, Structural)]
pub enum PreparedTracingLevel {
    Trace,
    Debug,
    Info,
    Warn,
    Error,
}

/// The lower-case label of a level.
pub open spec fn prepared_level_label(l: PreparedTracingLevel) -> Seq<char> {
    match l {
        PreparedTracingLevel::Trace => "trace"@,
        PreparedTracingLevel::Debug => "debug"@,
        PreparedTracingLevel::Info => "info"@,
        PreparedTracingLevel::Warn => "warn"@,
        PreparedTracingLevel::Error => "error"@,
    }
}

impl PreparedTracingLevel {
    /// The lower-case label of the level.
    pub fn label(self) -> (r: &'static str)
        ensures
            r@ == prepared_level_label(self),
    {
        match self {
            PreparedTracingLevel::Trace => "trace",
            PreparedTracingLevel::Debug => "debug",
            PreparedTracingLevel::Info => "info",
            PreparedTracingLevel::Warn => "warn",
            PreparedTracingLevel::Error => "error",
        }
    }
}

/// The level of a report of the given severity; fatal reports are emitted
/// as errors.
pub open spec fn level_of_severity(s: Severity) -> PreparedTracingLevel {
    match s {
        Severity::Debug => PreparedTracingLevel::Debug,
        Severity::Info => PreparedTracingLevel::Info,
        Severity::Warn => PreparedTracingLevel::Warn,
        Severity::Error | Severity::Fatal => PreparedTracingLevel::Error,
    }
}

/// The level a trace event asks for, if it names one.
pub open spec fn level_of_event(l: Option<TraceEventLevel>) -> Option<PreparedTracingLevel> {
    match l {
        Some(TraceEventLevel::Trace) => Some(PreparedTracingLevel::Trace),
        Some(TraceEventLevel::Debug) => Some(PreparedTracingLevel::Debug),
        Some(TraceEventLevel::Info) => Some(PreparedTracingLevel::Info),
        Some(TraceEventLevel::Warn) => Some(PreparedTracingLevel::Warn),
        Some(TraceEventLevel::Error) => Some(PreparedTracingLevel::Error),
        None => None,
    }
}

/// The level of a report of the given severity.
pub fn severity_to_prepared_level(level: Severity) -> (r: PreparedTracingLevel)
    ensures
        r == level_of_severity(level),
{
    match level {
        Severity::Debug => PreparedTracingLevel::Debug,
        Severity::Info => PreparedTracingLevel::Info,
        Severity::Warn => PreparedTracingLevel::Warn,
        Severity::Error | Severity::Fatal => PreparedTracingLevel::Error,
    }
}

/// The level a trace event asks for, if it names one.
pub fn trace_level_to_prepared(level: Option<TraceEventLevel>) -> (r: Option<PreparedTracingLevel>)
    ensures
        r == level_of_event(level),
{
    match level {
        Some(TraceEventLevel::Trace) => Some(PreparedTracingLevel::Trace),
        Some(TraceEventLevel::Debug) => Some(PreparedTracingLevel::Debug),
        Some(TraceEventLevel::Info) => Some(PreparedTracingLevel::Info),
        Some(TraceEventLevel::Warn) => Some(PreparedTracingLevel::Warn),
        Some(TraceEventLevel::Error) => Some(PreparedTracingLevel::Error),
        None => None,
    }
}

/// How many records an emission produced.
#[derive(Debug, Clone, Copy, PartialEq, Eq, Structural)]
pub struct EmitStats {
    pub report_events_emitted: usize,
    pub trace_events_emitted: usize,
}

impl EmitStats {
    /// The number of records emitted in all.
    pub fn total_events_emitted(self) -> (r: usize)
        requires
            self.report_events_emitted + self.trace_events_emitted <= usize::MAX,
        ensures
            r == self.report_events_emitted + self.trace_events_emitted,
    {
        self.report_events_emitted + self.trace_events_emitted
    }
}

/// The level of each trace event: the one it names, else the report's.
pub open spec fn event_levels(report_level: PreparedTracingLevel, events: Seq<TraceEvent>) -> Seq<PreparedTracingLevel> {
    Seq::new(events.len(), |j: int| match level_of_event(events[j].level) {
        Some(l) => l,
        None => report_level,
    })
}

/// An emission with every level resolved: one report record, then one
/// record per trace event.
#[derive(Debug)]
pub struct PreparedTracingEmission {
    report_level: PreparedTracingLevel,
    trace_event_levels: Vec<PreparedTracingLevel>,
}

impl PreparedTracingEmission {
    /// The level of the report record.
    pub closed spec fn level(&self) -> PreparedTracingLevel {
        self.report_level
    }

    /// The levels of the trace event records, in event order.
    pub closed spec fn levels(&self) -> Seq<PreparedTracingLevel> {
        self.trace_event_levels@
    }

    /// The record count fits a `usize`.
    #[verifier::type_invariant]
    closed spec fn counts_fit(&self) -> bool {
        self.trace_event_levels@.len() < usize::MAX
    }

    /// Resolves the levels for a report of severity `severity` whose trace
    /// holds `events` (fewer than `usize::MAX` of them, as any vector of
    /// events is, so that the record count fits).
    pub fn prepare(severity: Severity, events: &Vec<TraceEvent>) -> (r: Self)
        requires
            events@.len() < usize::MAX,
        ensures
            r.level() == level_of_severity(severity),
            r.levels() == event_levels(level_of_severity(severity), events@),
    {
        let report_level = severity_to_prepared_level(severity);
        let mut levels: Vec<PreparedTracingLevel> = Vec::new();
        let mut i: usize = 0;
        while i < events.len()
            invariant
                i <= events@.len(),
                events@.len() < usize::MAX,
                levels@ == event_levels(report_level, events@.take(i as int)),
            decreases events@.len() - i,
        {
            let level = match trace_level_to_prepared(events[i].level) {
                Some(l) => l,
                None => report_level,
            };
            levels.push(level);
            i = i + 1;
            proof {
                assert(levels@ =~= event_levels(report_level, events@.take(i as int)));
            }
        }
        proof {
            assert(events@.take(i as int) =~= events@);
        }
        PreparedTracingEmission { report_level, trace_event_levels: levels }
    }

    /// The level of the report record.
    pub fn report_level(&self) -> (r: PreparedTracingLevel)
        ensures
            r == self.level(),
    {
        self.report_level
    }

    /// The level of trace event `index`, if there is such an event.
    pub fn trace_event_level(&self, index: usize) -> (r: Option<PreparedTracingLevel>)
        ensures
            index < self.levels().len() ==> r == Some(self.levels()[index as int]),
            index >= self.levels().len() ==> r is None,
    {
        if index < self.trace_event_levels.len() {
            Some(self.trace_event_levels[index])
        } else {
            None
        }
    }

    /// The levels of all trace event records.
    pub fn trace_event_levels(&self) -> (r: &[PreparedTracingLevel])
        ensures
            r@ == self.levels(),
    {
        self.trace_event_levels.as_slice()
    }

    /// How many records the emission produces: one for the report and one
    /// per trace event.
    pub fn stats(&self) -> (r: EmitStats)
        ensures
            r.report_events_emitted == 1,
            r.trace_events_emitted == self.levels().len(),
            r.report_events_emitted + r.trace_events_emitted <= usize::MAX,
    {
        proof { use_type_invariant(self); }
        EmitStats { report_events_emitted: 1, trace_events_emitted: self.trace_event_levels.len() }
    }
}

impl<E> Report<E> {
    /// Resolves the levels of the records this report emits; the report
    /// must have a severity.
    pub fn prepare_tracing(&self) -> (r: PreparedTracingEmission)
        requires
            self.metadata.severity is Some,
            self.trace.events@.len() < usize::MAX,
        ensures
            r.level() == level_of_severity(self.metadata.severity->0),
            r.levels() == event_levels(level_of_severity(self.metadata.severity->0), self.trace.events@),
    {
        let severity = match self.metadata.severity {
            Some(s) => s,
            None => Severity::Error,
        };
        PreparedTracingEmission::prepare(severity, &self.trace.events)
    }
}

/// One structured field of a tracing record.
#[derive(Debug)]
pub struct TracingField {
    pub key: String,
    pub value: AttachmentValue,
}

/// The plain key and value of a field.
pub open spec fn field_model(f: TracingField) -> (Seq<char>, ValueModel) {
    (f.key@, f.value@)
}

pub open spec fn fields_model(fields: Seq<TracingField>) -> Seq<(Seq<char>, ValueModel)> {
    Seq::new(fields.len(), |j: int| field_model(fields[j]))
}

pub open spec fn opt_field(present: bool, key: Seq<char>, value: ValueModel) -> Seq<(Seq<char>, ValueModel)> {
    if present { seq![(key, value)] } else { Seq::empty() }
}

pub open spec fn code_value(c: ErrorCode) -> ValueModel {
    match c {
        ErrorCode::Integer(v) => ValueModel::Integer(v as int),
        ErrorCode::String(s) => ValueModel::Text(s@),
    }
}

/// The metadata fields: the error code, severity, category and retry flag
/// that are set.
pub open spec fn meta_fields<E>(r: Report<E>) -> Seq<(Seq<char>, ValueModel)> {
    let m = r.metadata;
    opt_field(m.error_code is Some, "metadata.error_code"@, code_value(m.error_code->0))
    + opt_field(m.severity is Some, "metadata.severity"@, ValueModel::Text(severity_label(m.severity->0)))
    + opt_field(m.category is Some, "metadata.category"@, ValueModel::Text(m.category->0@))
    + opt_field(m.retryable is Some, "metadata.retryable"@, ValueModel::Bool(m.retryable->0))
}

/// The diagnostic fields: the stack trace, the display causes when there
/// are any, and the source-error chains that are set.
pub open spec fn diag_fields<E>(r: Report<E>) -> Seq<(Seq<char>, ValueModel)> {
    opt_field(r.stack_trace is Some, "diagnostic_bag.stack_trace"@, stack_trace_model(r.stack_trace->0))
    + opt_field(
        r.display_causes is Some && r.display_causes->0.items@.len() > 0,
        "diagnostic_bag.display_causes"@,
        display_causes_model(
            r.display_causes->0.items@,
            CauseTraversalState { truncated: r.display_causes->0.truncated, cycle_detected: r.display_causes->0.cycle_detected },
        ),
    )
    + opt_field(r.origin_source_errors is Some, "diagnostic_bag.origin_source_errors"@,
        ValueModel::Object(source_chain_entries(r.origin_source_errors->0, true)))
    + opt_field(r.diagnostic_source_errors is Some, "diagnostic_bag.diagnostic_source_errors"@,
        ValueModel::Object(source_chain_entries(r.diagnostic_source_errors->0, false)))
}

/// The tracing fields of a report, in order: the error, the metadata, the
/// diagnostics, the trace unless it is empty, then the context entries and
/// the attachments when there are any.
pub open spec fn tracing_fields<E>(r: Report<E>) -> Seq<(Seq<char>, ValueModel)> {
    seq![("error"@, error_model(r.message@, r.type_label@))]
    + meta_fields(r)
    + diag_fields(r)
    + tail_fields(r)
}

fn push_field(fields: &mut Vec<TracingField>, key: &str, value: AttachmentValue)
    ensures
        fields_model(final(fields)@) == fields_model(old(fields)@).push((key@, value@)),
{
    fields.push(TracingField { key: str_to_string(key), value });
    proof {
        assert(fields_model(fields@) =~= fields_model(old(fields)@).push((key@, value@)));
    }
}

fn copy_code(c: &ErrorCode) -> (r: AttachmentValue)
    ensures
        r@ == code_value(*c),
{
    match c {
        ErrorCode::Integer(v) => AttachmentValue::Integer(*v),
        ErrorCode::String(s) => AttachmentValue::String(s.clone()),
    }
}

fn push_meta_fields<E>(fields: &mut Vec<TracingField>, r: &Report<E>)
    ensures
        fields_model(final(fields)@) == fields_model(old(fields)@) + meta_fields(*r),
{
    let ghost f0 = fields_model(fields@);
    match &r.metadata.error_code {
        Some(c) => push_field(fields, "metadata.error_code", copy_code(c)),
        None => {},
    }
    match r.metadata.severity {
        Some(s) => push_field(fields, "metadata.severity", AttachmentValue::String(s.to_label_string())),
        None => {},
    }
    match &r.metadata.category {
        Some(c) => push_field(fields, "metadata.category", AttachmentValue::String(c.clone())),
        None => {},
    }
    match r.metadata.retryable {
        Some(b) => push_field(fields, "metadata.retryable", AttachmentValue::Bool(b)),
        None => {},
    }
    proof {
        assert(fields_model(fields@) =~= f0 + meta_fields(*r));
    }
}

fn push_diag_fields<E>(fields: &mut Vec<TracingField>, r: &Report<E>)
    ensures
        fields_model(final(fields)@) == fields_model(old(fields)@) + diag_fields(*r),
{
    let ghost f0 = fields_model(fields@);
    match &r.stack_trace {
        Some(st) => push_field(fields, "diagnostic_bag.stack_trace", build_stack_trace_value(st)),
        None => {},
    }
    match &r.display_causes {
        Some(c) => {
            if c.items.len() > 0 {
                let state = CauseTraversalState { truncated: c.truncated, cycle_detected: c.cycle_detected };
                push_field(fields, "diagnostic_bag.display_causes", build_display_causes_value(&c.items, state));
            }
        },
        None => {},
    }
    match &r.origin_source_errors {
        Some(c) => push_field(fields, "diagnostic_bag.origin_source_errors", build_source_chain_value(c, true)),
        None => {},
    }
    match &r.diagnostic_source_errors {
        Some(c) => push_field(fields, "diagnostic_bag.diagnostic_source_errors", build_source_chain_value(c, false)),
        None => {},
    }
    proof {
        assert(fields_model(fields@) =~= f0 + diag_fields(*r));
    }
}

/// The fields after the diagnostics: the trace unless empty, the context
/// entries and the attachments when there are any.
pub open spec fn tail_fields<E>(r: Report<E>) -> Seq<(Seq<char>, ValueModel)> {
    opt_field(!trace_is_empty(r.trace), "trace"@, trace_model(r.trace, r.message@, r.type_label@))
    + opt_field(r.context.entries().len() > 0, "context"@, ValueModel::Array(context_items_model(r.context.entries())))
    + opt_field(r.attachments@.len() > 0, "attachments"@, ValueModel::Array(attachment_items_model(r.attachments@)))
}

fn push_tail_fields<E>(fields: &mut Vec<TracingField>, r: &Report<E>)
    ensures
        fields_model(final(fields)@) == fields_model(old(fields)@) + tail_fields(*r),
{
    let ghost f0 = fields_model(fields@);
    if !r.trace.is_empty() {
        push_field(fields, "trace", build_trace_value(&r.trace, r.message.as_str(), r.type_label.as_str()));
    }
    let ghost f1 = fields_model(fields@);
    let (context_items, attachment_items) = build_ctx_and_attachments(&r.context, &r.attachments);
    proof {
        crate::attachment::lemma_items_model_len(context_items@);
        crate::attachment::lemma_items_model_len(attachment_items@);
    }
    if context_items.len() > 0 {
        push_field(fields, "context", AttachmentValue::Array(context_items));
    }
    if attachment_items.len() > 0 {
        push_field(fields, "attachments", AttachmentValue::Array(attachment_items));
    }
    proof {
        assert(fields_model(fields@) =~= f0 + tail_fields(*r));
    }
}

impl<E> Report<E> {
    /// The structured fields a tracing record of this report carries.
    pub fn to_tracing_fields(&self) -> (r: Vec<TracingField>)
        ensures
            fields_model(r@) == tracing_fields(*self),
    {
        let mut fields: Vec<TracingField> = Vec::new();
        proof {
            assert(fields_model(fields@) =~= Seq::empty());
        }
        push_field(&mut fields, "error", build_error_value(self.message.as_str(), self.type_label.as_str()));
        push_meta_fields(&mut fields, self);
        push_diag_fields(&mut fields, self);
        push_tail_fields(&mut fields, self);
        proof {
            assert(fields_model(fields@) =~= tracing_fields(*self));
        }
        fields
    }
}

} // verus!
