//! Setting a report's trace context and events.

use vstd::prelude::*;
use crate::report::Report;
use crate::trace::{
    flags_after_sampled, trace_context_or_empty, ParentSpanId, ReportTrace, SpanId, TraceContext, TraceEvent,
    TraceEventAttribute, TraceEventLevel, TraceFlags, TraceId, TraceState,
};

verus! {

/// Whether two reports agree on everything but their trace.
pub open spec fn same_but_trace<E>(a: Report<E>, b: Report<E>) -> bool {
    &&& a.inner == b.inner
    &&& a.message == b.message
    &&& a.type_label == b.type_label
    &&& a.metadata == b.metadata
    &&& a.stack_trace == b.stack_trace
    &&& a.context == b.context
    &&& a.system == b.system
    &&& a.attachments == b.attachments
    &&& a.display_causes == b.display_causes
    &&& a.origin_source_errors == b.origin_source_errors
    &&& a.diagnostic_source_errors == b.diagnostic_source_errors
    &&& a.options == b.options
}

impl<E> Report<E> {
    /// The report's trace.
    pub fn trace(&self) -> (r: &ReportTrace)
        ensures
            *r == self.trace,
    {
        &self.trace
    }

    /// Replaces the trace.
    pub fn set_trace(self, trace: ReportTrace) -> (r: Self)
        ensures
            r.trace == trace,
            same_but_trace(r, self),
    {
        let mut s = self;
        s.trace = trace;
        s
    }

    /// Replaces the trace and span ids.
    pub fn set_trace_ids(self, trace_id: TraceId, span_id: SpanId) -> (r: Self)
        ensures
            r.trace.context == Some(TraceContext {
                trace_id: Some(trace_id),
                span_id: Some(span_id),
                ..trace_context_or_empty(self.trace)
            }),
            r.trace.events == self.trace.events,
            same_but_trace(r, self),
    {
        let mut s = self;
        let mut trace = ReportTrace::new();
        std::mem::swap(&mut trace, &mut s.trace);
        s.trace = trace.set_trace_id(trace_id).set_span_id(span_id);
        s
    }

    /// Replaces the parent span id.
    pub fn set_parent_span_id(self, parent_span_id: ParentSpanId) -> (r: Self)
        ensures
            r.trace.context == Some(TraceContext { parent_span_id: Some(parent_span_id), ..trace_context_or_empty(self.trace) }),
            r.trace.events == self.trace.events,
            same_but_trace(r, self),
    {
        let mut s = self;
        let mut trace = ReportTrace::new();
        std::mem::swap(&mut trace, &mut s.trace);
        s.trace = trace.set_parent_span_id(parent_span_id);
        s
    }

    /// Sets the parent span id only when none is set.
    pub fn with_parent_span_id(self, parent_span_id: ParentSpanId) -> (r: Self)
        ensures
            trace_context_or_empty(self.trace).parent_span_id is None ==> r.trace.context == Some(
                TraceContext { parent_span_id: Some(parent_span_id), ..trace_context_or_empty(self.trace) }),
            trace_context_or_empty(self.trace).parent_span_id is Some ==> r.trace.context == self.trace.context,
            r.trace.events == self.trace.events,
            same_but_trace(r, self),
    {
        let mut s = self;
        let mut trace = ReportTrace::new();
        std::mem::swap(&mut trace, &mut s.trace);
        s.trace = trace.with_parent_span_id(parent_span_id);
        s
    }

    /// Replaces the sampled flag; bit 0 of the flags follows it.
    pub fn set_trace_sampled(self, sampled: bool) -> (r: Self)
        ensures
            r.trace.context == Some(TraceContext {
                sampled: Some(sampled),
                flags: flags_after_sampled(trace_context_or_empty(self.trace).flags, sampled),
                ..trace_context_or_empty(self.trace)
            }),
            r.trace.events == self.trace.events,
            same_but_trace(r, self),
    {
        let mut s = self;
        let mut trace = ReportTrace::new();
        std::mem::swap(&mut trace, &mut s.trace);
        s.trace = trace.set_sampled(sampled);
        s
    }

    /// Sets the sampled flag only when none is set.
    pub fn with_trace_sampled(self, sampled: bool) -> (r: Self)
        ensures
            trace_context_or_empty(self.trace).sampled is None ==> r.trace.context == Some(TraceContext {
                sampled: Some(sampled),
                flags: flags_after_sampled(trace_context_or_empty(self.trace).flags, sampled),
                ..trace_context_or_empty(self.trace)
            }),
            trace_context_or_empty(self.trace).sampled is Some ==> r.trace.context == self.trace.context,
            r.trace.events == self.trace.events,
            same_but_trace(r, self),
    {
        let mut s = self;
        let mut trace = ReportTrace::new();
        std::mem::swap(&mut trace, &mut s.trace);
        s.trace = trace.with_sampled(sampled);
        s
    }

    /// Replaces the trace state.
    pub fn set_trace_state(self, trace_state: String) -> (r: Self)
        ensures
            r.trace.context == Some(TraceContext {
                trace_state: Some(TraceState { value: trace_state }),
                ..trace_context_or_empty(self.trace)
            }),
            r.trace.events == self.trace.events,
            same_but_trace(r, self),
    {
        let mut s = self;
        let mut trace = ReportTrace::new();
        std::mem::swap(&mut trace, &mut s.trace);
        s.trace = trace.set_trace_state(trace_state);
        s
    }

    /// Sets the trace state only when none is set.
    pub fn with_trace_state(self, trace_state: String) -> (r: Self)
        ensures
            trace_context_or_empty(self.trace).trace_state is None ==> r.trace.context == Some(TraceContext {
                trace_state: Some(TraceState { value: trace_state }),
                ..trace_context_or_empty(self.trace)
            }),
            trace_context_or_empty(self.trace).trace_state is Some ==> r.trace.context == self.trace.context,
            r.trace.events == self.trace.events,
            same_but_trace(r, self),
    {
        let mut s = self;
        let mut trace = ReportTrace::new();
        std::mem::swap(&mut trace, &mut s.trace);
        s.trace = trace.with_trace_state(trace_state);
        s
    }

    /// Replaces the flags; the sampled flag follows bit 0.
    pub fn set_trace_flags(self, flags: TraceFlags) -> (r: Self)
        ensures
            r.trace.context == Some(TraceContext {
                flags: Some(flags),
                sampled: Some(flags.bits & 1u8 == 1u8),
                ..trace_context_or_empty(self.trace)
            }),
            r.trace.events == self.trace.events,
            same_but_trace(r, self),
    {
        let mut s = self;
        let mut trace = ReportTrace::new();
        std::mem::swap(&mut trace, &mut s.trace);
        s.trace = trace.set_flags(flags);
        s
    }

    /// Sets the flags only when none are set.
    pub fn with_trace_flags(self, flags: TraceFlags) -> (r: Self)
        ensures
            trace_context_or_empty(self.trace).flags is None ==> r.trace.context == Some(TraceContext {
                flags: Some(flags),
                sampled: Some(flags.bits & 1u8 == 1u8),
                ..trace_context_or_empty(self.trace)
            }),
            trace_context_or_empty(self.trace).flags is Some ==> r.trace.context == self.trace.context,
            r.trace.events == self.trace.events,
            same_but_trace(r, self),
    {
        let mut s = self;
        let mut trace = ReportTrace::new();
        std::mem::swap(&mut trace, &mut s.trace);
        s.trace = trace.with_flags(flags);
        s
    }

    /// Appends an event with only a name.
    pub fn push_trace_event(self, name: String) -> (r: Self)
        ensures
            r.trace.events@.len() == self.trace.events@.len() + 1,
            r.trace.events@.drop_last() == self.trace.events@,
            r.trace.events@.last().name@ == name@,
            r.trace.events@.last().level is None,
            r.trace.events@.last().timestamp_unix_nano is None,
            r.trace.events@.last().attributes@.len() == 0,
            r.trace.context == self.trace.context,
            same_but_trace(r, self),
    {
        let mut s = self;
        let ghost before = s.trace.events@;
        s.trace.events.push(TraceEvent::named(name));
        proof {
            assert(s.trace.events@.drop_last() =~= before);
        }
        s
    }

    /// Appends an event with the given name, level, timestamp and attributes.
    pub fn push_trace_event_with(
        self,
        name: String,
        level: Option<TraceEventLevel>,
        timestamp_unix_nano: Option<u64>,
        attributes: Vec<TraceEventAttribute>,
    ) -> (r: Self)
        ensures
            r.trace.events@ == self.trace.events@.push(TraceEvent { name, level, timestamp_unix_nano, attributes }),
            r.trace.context == self.trace.context,
            same_but_trace(r, self),
    {
        let mut s = self;
        s.trace.events.push(TraceEvent { name, level, timestamp_unix_nano, attributes });
        s
    }
}

} // verus!
