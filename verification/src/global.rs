//! Context injected into every new report by a process-wide injector: its
//! one-time registration, and how what the injector returns is applied.

use vstd::prelude::*;
use crate::attachment::{context_lookup, AttachmentValue, ContextMap};
use crate::report::Report;
use crate::error_code::ErrorCode;
use crate::trace::{trace_context_or_empty, ParentSpanId, SpanId, TraceContext, TraceFlags, TraceId, TraceState};

verus! {

/// What an injector hands to a new report: context entries and trace ids.
#[derive(Debug)]
pub struct GlobalContext {
    pub context: Vec<(String, AttachmentValue)>,
    pub trace_id: Option<TraceId>,
    pub span_id: Option<SpanId>,
    pub parent_span_id: Option<ParentSpanId>,
}

impl GlobalContext {
    /// Nothing to inject.
    pub fn new() -> (r: Self)
        ensures
            r.context@.len() == 0,
            r.trace_id is None,
            r.span_id is None,
            r.parent_span_id is None,
    {
        GlobalContext { context: Vec::new(), trace_id: None, span_id: None, parent_span_id: None }
    }
}

/// Governance metadata that a process-wide context can carry.
#[derive(Debug)]
pub struct GlobalErrorMeta {
    pub error_code: Option<ErrorCode>,
    pub category: Option<String>,
    pub retryable: Option<bool>,
}

impl GlobalErrorMeta {
    /// Whether no field is set.
    pub fn is_empty(&self) -> (r: bool)
        ensures
            r == (self.error_code is None && self.category is None && self.retryable is None),
    {
        self.error_code.is_none() && self.category.is_none() && self.retryable.is_none()
    }
}

impl Default for GlobalErrorMeta {
    fn default() -> (r: Self)
        ensures
            r.error_code is None,
            r.category is None,
            r.retryable is None,
    {
        GlobalErrorMeta { error_code: None, category: None, retryable: None }
    }
}

/// Trace values that a process-wide context can carry.
#[derive(Debug)]
pub struct GlobalTraceContext {
    pub trace_id: Option<TraceId>,
    pub span_id: Option<SpanId>,
    pub parent_span_id: Option<ParentSpanId>,
    pub sampled: Option<bool>,
    pub trace_state: Option<TraceState>,
    pub flags: Option<TraceFlags>,
}

impl GlobalTraceContext {
    /// Whether no value is set.
    pub fn is_empty(&self) -> (r: bool)
        ensures
            r == (self.trace_id is None && self.span_id is None && self.parent_span_id is None
                && self.sampled is None && self.trace_state is None && self.flags is None),
    {
        self.trace_id.is_none() && self.span_id.is_none() && self.parent_span_id.is_none()
            && self.sampled.is_none() && self.trace_state.is_none() && self.flags.is_none()
    }
}

impl Default for GlobalTraceContext {
    fn default() -> (r: Self)
        ensures
            r.trace_id is None,
            r.span_id is None,
            r.parent_span_id is None,
            r.sampled is None,
            r.trace_state is None,
            r.flags is None,
    {
        GlobalTraceContext {
            trace_id: None,
            span_id: None,
            parent_span_id: None,
            sampled: None,
            trace_state: None,
            flags: None,
        }
    }
}

/// Returned when an injector is registered a second time.
#[derive(Debug, Clone, Copy, PartialEq, Eq, Structural)]
pub struct RegisterGlobalContextError;

/// Whether a process-wide injector was registered; registration happens
/// at most once.
#[derive(Debug)]
pub struct GlobalInjectorSlot {
    registered: bool,
}

impl GlobalInjectorSlot {
    /// Whether an injector was registered.
    pub closed spec fn is_registered(&self) -> bool {
        self.registered
    }

    /// A slot with no injector.
    pub fn new() -> (r: Self)
        ensures
            !r.is_registered(),
    {
        GlobalInjectorSlot { registered: false }
    }

    /// Whether an injector was registered.
    pub fn registered(&self) -> (r: bool)
        ensures
            r == self.is_registered(),
    {
        self.registered
    }
}

/// Registers an injector: `Ok` the first time, an error every later time.
pub fn register_global_injector(slot: &mut GlobalInjectorSlot) -> (r: Result<(), RegisterGlobalContextError>)
    ensures
        r is Ok <==> !old(slot).is_registered(),
        final(slot).is_registered(),
{
    if slot.registered {
        Err(RegisterGlobalContextError)
    } else {
        slot.registered = true;
        Ok(())
    }
}

/// The value a key has after injection: the last injected value for it,
/// else the report's own.
pub open spec fn injected_lookup(
    own: Seq<(String, AttachmentValue)>,
    injected: Seq<(String, AttachmentValue)>,
    key: Seq<char>,
) -> Option<AttachmentValue> {
    match context_lookup(injected, key) {
        Some(v) => Some(v),
        None => context_lookup(own, key),
    }
}

/// The trace context after injection: each id the report lacks is taken
/// from the injector.
pub open spec fn fill_trace_ids(c: TraceContext, g: GlobalContext) -> TraceContext {
    TraceContext {
        trace_id: if c.trace_id is None { g.trace_id } else { c.trace_id },
        span_id: if c.span_id is None { g.span_id } else { c.span_id },
        parent_span_id: if c.parent_span_id is None { g.parent_span_id } else { c.parent_span_id },
        ..c
    }
}

/// Whether the injector supplies any trace id.
pub open spec fn has_trace_ids(g: GlobalContext) -> bool {
    g.trace_id is Some || g.span_id is Some || g.parent_span_id is Some
}

proof fn lemma_injected_step(
    own: Seq<(String, AttachmentValue)>,
    all: Seq<(String, AttachmentValue)>,
    k: int,
    before: Seq<(String, AttachmentValue)>,
    after: Seq<(String, AttachmentValue)>,
    pair: (String, AttachmentValue),
)
    requires
        0 <= k < all.len(),
        all[k] == pair,
        forall|q: Seq<char>| #[trigger] context_lookup(before, q) == injected_lookup(own, all.subrange(0, k), q),
        context_lookup(after, pair.0@) == Some(pair.1),
        forall|q: Seq<char>| q != pair.0@ ==> #[trigger] context_lookup(after, q) == context_lookup(before, q),
    ensures
        forall|q: Seq<char>| #[trigger] context_lookup(after, q) == injected_lookup(own, all.subrange(0, k + 1), q),
{
    reveal(context_lookup);
    let taken = all.subrange(0, k + 1);
    assert(taken.drop_last() =~= all.subrange(0, k));
    assert(taken.last() == pair);
    assert forall|q: Seq<char>| #[trigger] context_lookup(after, q) == injected_lookup(own, taken, q) by {
        if q != pair.0@ {
            assert(context_lookup(before, q) == injected_lookup(own, all.subrange(0, k), q));
        }
    }
}

/// Stores each entry in order, a later one replacing an earlier one with the
/// same key.
fn insert_all(map: &mut ContextMap, entries: Vec<(String, AttachmentValue)>)
    ensures
        forall|key: Seq<char>| #[trigger] context_lookup(final(map).entries(), key)
            == injected_lookup(old(map).entries(), entries@, key),
{
    let ghost own = map.entries();
    let ghost all = entries@;
    let mut rest = entries;
    let total: usize = rest.len();
    let mut k: usize = 0;
    proof {
        reveal(context_lookup);
        assert forall|key: Seq<char>| #[trigger] context_lookup(map.entries(), key)
            == injected_lookup(own, all.subrange(0, 0), key) by {
            assert(context_lookup(all.subrange(0, 0), key) is None);
        }
    }
    while rest.len() > 0
        invariant
            all.len() == total,
            k + rest@.len() == all.len(),
            rest@ == all.subrange(k as int, all.len() as int),
            forall|key: Seq<char>| #[trigger] context_lookup(map.entries(), key)
                == injected_lookup(own, all.subrange(0, k as int), key),
        decreases rest@.len(),
    {
        let (key, value) = rest.remove(0);
        proof {
            assert((key, value) == all[k as int]);
        }
        let ghost pair = (key, value);
        let ghost before = map.entries();
        map.insert(key, value);
        proof {
            lemma_injected_step(own, all, k as int, before, map.entries(), pair);
        }
        k = k + 1;
        proof {
            assert(rest@ =~= all.subrange(k as int, all.len() as int));
        }
    }
    proof {
        assert(all.subrange(0, k as int) =~= all);
    }
}

impl<E> Report<E> {
    /// Applies what the injector returned: nothing when it returned `None`;
    /// otherwise its context entries are stored (a later entry replacing an
    /// earlier one with the same key) and each trace id the report lacks is
    /// taken from it.
    pub fn apply_global_context(self, injected: Option<GlobalContext>) -> (r: Self)
        ensures
            injected is None ==> r == self,
            injected matches Some(g) ==> {
                &&& r == (Report { context: r.context, trace: r.trace, ..self })
                &&& forall|k: Seq<char>| #[trigger] context_lookup(r.context.entries(), k)
                    == injected_lookup(self.context.entries(), g.context@, k)
                &&& r.trace.events == self.trace.events
                &&& (has_trace_ids(g) ==> r.trace.context == Some(fill_trace_ids(trace_context_or_empty(self.trace), g)))
                &&& (!has_trace_ids(g) ==> r.trace.context == self.trace.context)
                &&& r.inner == self.inner
                &&& r.message == self.message
                &&& r.type_label == self.type_label
                &&& r.metadata == self.metadata
                &&& r.attachments == self.attachments
                &&& r.system == self.system
                &&& r.options == self.options
            },
    {
        let g = match injected {
            None => return self,
            Some(g) => g,
        };
        let mut s = self;
        let GlobalContext { context, trace_id, span_id, parent_span_id } = g;
        insert_all(&mut s.context, context);
        if trace_id.is_some() || span_id.is_some() || parent_span_id.is_some() {
            let mut ctx = match s.trace.context.take() {
                Some(c) => c,
                None => TraceContext::new(),
            };
            if ctx.trace_id.is_none() {
                ctx.trace_id = trace_id;
            }
            if ctx.span_id.is_none() {
                ctx.span_id = span_id;
            }
            if ctx.parent_span_id.is_none() {
                ctx.parent_span_id = parent_span_id;
            }
            s.trace.context = Some(ctx);
        }
        s
    }
}

} // verus!
