//! Trace identifiers, trace context and trace events attached to reports.
//!
//! The sampled flag and bit 0 of the trace flags describe the same fact; every
//! setter that touches one keeps the other in step.

use vstd::prelude::*;
use crate::attachment::AttachmentValue;

verus! {

/// Whether a character is a lowercase hexadecimal digit.
pub open spec fn is_hex_char(c: char) -> bool {
    ('0' <= c && c <= '9') || ('a' <= c && c <= 'f')
}

/// A valid identifier of width `n`: exactly `n` lowercase hexadecimal
/// digits, not all zero.
pub open spec fn valid_hex_id(s: Seq<char>, n: nat) -> bool {
    &&& s.len() == n
    &&& forall|i: int| 0 <= i < s.len() ==> #[trigger] is_hex_char(s[i])
    &&& exists|i: int| 0 <= i < s.len() && #[trigger] s[i] != '0'
}

/// A fixed-width, non-zero hexadecimal identifier.
#[derive(Debug, PartialEq, Eq)]
pub struct HexId<const N: usize> {
    value: String,
}

impl<const N: usize> View for HexId<N> {
    type V = Seq<char>;

    closed spec fn view(&self) -> Seq<char> {
        self.value@
    }
}

impl<const N: usize> HexId<N> {
    /// Every identifier is valid for its width.
    #[verifier::type_invariant]
    closed spec fn valid(&self) -> bool {
        valid_hex_id(self.value@, N as nat)
    }

    /// Whether `value` is a valid identifier of this width.
    pub fn is_valid(value: &str) -> (r: bool)
        ensures
            r == valid_hex_id(value@, N as nat),
    {
        let n = value.unicode_len();
        if n != N {
            return false;
        }
        let mut i: usize = 0;
        let mut nonzero = false;
        while i < n
            invariant
                n == value@.len(),
                i <= n,
                forall|j: int| 0 <= j < i ==> #[trigger] is_hex_char(value@[j]),
                nonzero == exists|j: int| 0 <= j < i && #[trigger] value@[j] != '0',
            decreases n - i,
        {
            let c = value.get_char(i);
            let hex = ('0' <= c && c <= '9') || ('a' <= c && c <= 'f');
            if !hex {
                assert(!is_hex_char(value@[i as int]));
                return false;
            }
            if c != '0' {
                nonzero = true;
            }
            proof {
                if !nonzero {
                    assert forall|j: int| 0 <= j < i + 1 implies !(#[trigger] value@[j] != '0') by {
                        if j < i {
                            if value@[j] != '0' {
                                assert(exists|k: int| 0 <= k < i && #[trigger] value@[k] != '0');
                            }
                        }
                    }
                } else {
                    if c != '0' {
                        assert(value@[i as int] != '0');
                    } else {
                        let k = choose|k: int| 0 <= k < i && #[trigger] value@[k] != '0';
                        assert(value@[k] != '0');
                    }
                }
            }
            i = i + 1;
        }
        nonzero
    }

    /// A validated identifier; `Err(())` when `value` is not valid.
    pub fn new(value: String) -> (r: Result<Self, ()>)
        ensures
            r is Ok <==> valid_hex_id(value@, N as nat),
            r matches Ok(id) ==> id@ == value@,
    {
        if Self::is_valid(value.as_str()) {
            Ok(HexId { value })
        } else {
            Err(())
        }
    }

    /// The identifier's text, which is always a valid identifier.
    pub fn as_str(&self) -> (r: &str)
        ensures
            r@ == self@,
            valid_hex_id(r@, N as nat),
    {
        proof {
            use_type_invariant(self);
        }
        self.value.as_str()
    }

    /// The identifier's text, by value.
    pub fn into_inner(self) -> (r: String)
        ensures
            r@ == self@,
            valid_hex_id(r@, N as nat),
    {
        proof {
            use_type_invariant(&self);
        }
        self.value
    }

    /// A copy of the identifier.
    pub fn copy(&self) -> (r: Self)
        ensures
            r@ == self@,
    {
        proof {
            use_type_invariant(self);
        }
        let value = self.value.clone();
        proof {
            assert(value@ == self.value@);
        }
        HexId { value }
    }
}

/// Trace identifier: 32 hexadecimal digits.
pub type TraceId = HexId<32>;
/// Span identifier: 16 hexadecimal digits.
pub type SpanId = HexId<16>;
/// Parent span identifier: 16 hexadecimal digits.
pub type ParentSpanId = HexId<16>;

/// Vendor-specific trace state carried along with the context.
#[derive(Debug, Clone, PartialEq, Eq)]
pub struct TraceState {
    pub value: String,
}

impl TraceState {
    /// A trace state holding `value`.
    pub fn new(value: String) -> (r: Self)
        ensures
            r.value@ == value@,
    {
        TraceState { value }
    }

    /// The trace state's text.
    pub fn as_str(&self) -> (r: &str)
        ensures
            r@ == self.value@,
    {
        self.value.as_str()
    }

    /// The owned string the trace state holds.
    pub fn as_static_ref(&self) -> (r: &String)
        ensures
            r@ == self.value@,
    {
        &self.value
    }
}

/// W3C trace flags; bit 0 is the sampled flag.
#[derive(Debug, Clone, Copy, PartialEq, Eq)]
pub struct TraceFlags {
    pub bits: u8,
}

impl TraceFlags {
    /// Flags with the given bits.
    pub fn new(value: u8) -> (r: Self)
        ensures
            r.bits == value,
    {
        TraceFlags { bits: value }
    }

    /// The raw bits.
    pub fn bits(self) -> (r: u8)
        ensures
            r == self.bits,
    {
        self.bits
    }
}

/// Level of a trace event.
#[derive(Debug, Clone, Copy, PartialEq, Eq)]
pub enum TraceEventLevel {
    Trace,
    Debug,
    Info,
    Warn,
    Error,
}

/// Lower-case label of a trace event level.
pub open spec fn trace_level_label(level: TraceEventLevel) -> Seq<char> {
    match level {
        TraceEventLevel::Trace => "trace"@,
        TraceEventLevel::Debug => "debug"@,
        TraceEventLevel::Info => "info"@,
        TraceEventLevel::Warn => "warn"@,
        TraceEventLevel::Error => "error"@,
    }
}

impl TraceEventLevel {
    /// The level's lower-case label.
    pub fn label(self) -> (r: &'static str)
        ensures
            r@ == trace_level_label(self),
    {
        match self {
            TraceEventLevel::Trace => "trace",
            TraceEventLevel::Debug => "debug",
            TraceEventLevel::Info => "info",
            TraceEventLevel::Warn => "warn",
            TraceEventLevel::Error => "error",
        }
    }
}

/// A key-value attribute of a trace event.
#[derive(Debug, PartialEq)]
pub struct TraceEventAttribute {
    pub key: String,
    pub value: AttachmentValue,
}

/// An event recorded within a trace.
#[derive(Debug, PartialEq)]
pub struct TraceEvent {
    pub name: String,
    pub level: Option<TraceEventLevel>,
    pub timestamp_unix_nano: Option<u64>,
    pub attributes: Vec<TraceEventAttribute>,
}

impl TraceEvent {
    /// An event with only a name.
    pub fn named(name: String) -> (r: Self)
        ensures
            r.name@ == name@,
            r.level is None,
            r.timestamp_unix_nano is None,
            r.attributes@.len() == 0,
    {
        TraceEvent { name, level: None, timestamp_unix_nano: None, attributes: Vec::new() }
    }
}

/// Trace context values of a report.
#[derive(Debug, PartialEq, Eq)]
pub struct TraceContext {
    pub trace_id: Option<TraceId>,
    pub span_id: Option<SpanId>,
    pub parent_span_id: Option<ParentSpanId>,
    pub sampled: Option<bool>,
    pub trace_state: Option<TraceState>,
    pub flags: Option<TraceFlags>,
}

/// Whether a context holds no value at all.
pub open spec fn context_is_empty(c: TraceContext) -> bool {
    c.trace_id is None && c.span_id is None && c.parent_span_id is None && c.sampled is None
        && c.trace_state is None && c.flags is None
}

/// The flags after setting the sampled flag to `sampled`: bit 0 follows it,
/// the other bits stay; absent flags become `1` or `0`.
pub open spec fn flags_after_sampled(flags: Option<TraceFlags>, sampled: bool) -> Option<TraceFlags> {
    match flags {
        Some(f) => Some(TraceFlags { bits: if sampled { f.bits | 1u8 } else { f.bits & 0xfeu8 } }),
        None => Some(TraceFlags { bits: if sampled { 1u8 } else { 0u8 } }),
    }
}

/// Whether the sampled flag and bit 0 of the flags agree (where both are set).
pub open spec fn sampled_in_step(c: TraceContext) -> bool {
    match (c.sampled, c.flags) {
        (Some(s), Some(f)) => s == (f.bits & 1u8 == 1u8),
        _ => true,
    }
}

impl TraceContext {
    /// A context with no value.
    pub fn new() -> (r: Self)
        ensures
            context_is_empty(r),
    {
        TraceContext {
            trace_id: None,
            span_id: None,
            parent_span_id: None,
            sampled: None,
            trace_state: None,
            flags: None,
        }
    }

    /// Whether the context holds no value.
    pub fn is_empty(&self) -> (r: bool)
        ensures
            r == context_is_empty(*self),
    {
        self.trace_id.is_none() && self.span_id.is_none() && self.parent_span_id.is_none()
            && self.sampled.is_none() && self.trace_state.is_none() && self.flags.is_none()
    }
}

/// Brings the flags in step with the sampled flag, when the sampled flag is set.
fn sync_flags_with_sampled(context: &mut TraceContext)
    ensures
        final(context).trace_id == old(context).trace_id,
        final(context).span_id == old(context).span_id,
        final(context).parent_span_id == old(context).parent_span_id,
        final(context).sampled == old(context).sampled,
        final(context).trace_state == old(context).trace_state,
        final(context).flags == (match old(context).sampled {
            Some(s) => flags_after_sampled(old(context).flags, s),
            None => old(context).flags,
        }),
{
    match context.sampled {
        None => {},
        Some(sampled) => {
            match context.flags {
                Some(f) => {
                    let bits = if sampled { f.bits | 1u8 } else { f.bits & 0xfeu8 };
                    context.flags = Some(TraceFlags { bits });
                },
                None => {
                    context.flags = Some(TraceFlags { bits: if sampled { 1u8 } else { 0u8 } });
                },
            }
        },
    }
}

/// Brings the sampled flag in step with bit 0 of the flags, when flags are set.
fn sync_sampled_with_flags(context: &mut TraceContext)
    ensures
        final(context).trace_id == old(context).trace_id,
        final(context).span_id == old(context).span_id,
        final(context).parent_span_id == old(context).parent_span_id,
        final(context).flags == old(context).flags,
        final(context).trace_state == old(context).trace_state,
        final(context).sampled == (match old(context).flags {
            Some(f) => Some(f.bits & 1u8 == 1u8),
            None => old(context).sampled,
        }),
{
    match context.flags {
        None => {},
        Some(f) => {
            context.sampled = Some(f.bits & 1u8 == 1u8);
        },
    }
}

/// After setting the sampled flag, bit 0 of the flags agrees with it and the
/// other bits are those the flags had before.
pub proof fn lemma_sampled_sets_flag_bit(flags: Option<TraceFlags>, sampled: bool)
    ensures
        flags_after_sampled(flags, sampled) matches Some(f) && (f.bits & 1u8 == 1u8) == sampled,
        flags matches Some(old_f) ==> (flags_after_sampled(flags, sampled) matches Some(f)
            && (f.bits & 0xfeu8) == (old_f.bits & 0xfeu8)),
{
    match flags {
        Some(f) => {
            let b = f.bits;
            assert((b | 1u8) & 1u8 == 1u8) by (bit_vector);
            assert((b & 0xfeu8) & 1u8 == 0u8) by (bit_vector);
            assert((b | 1u8) & 0xfeu8 == b & 0xfeu8) by (bit_vector);
            assert((b & 0xfeu8) & 0xfeu8 == b & 0xfeu8) by (bit_vector);
        },
        None => {
            assert(1u8 & 1u8 == 1u8) by (bit_vector);
            assert(0u8 & 1u8 == 0u8) by (bit_vector);
        },
    }
}

/// The trace of a report: its context and its events.
#[derive(Debug, PartialEq)]
pub struct ReportTrace {
    pub context: Option<TraceContext>,
    pub events: Vec<TraceEvent>,
}

/// Whether a trace holds neither context values nor events.
pub open spec fn trace_is_empty(t: ReportTrace) -> bool {
    (t.context is None || context_is_empty(t.context->0)) && t.events@.len() == 0
}

/// The context a trace holds, an empty one when it has none.
pub open spec fn trace_context_or_empty(t: ReportTrace) -> TraceContext {
    match t.context {
        Some(c) => c,
        None => TraceContext {
            trace_id: None,
            span_id: None,
            parent_span_id: None,
            sampled: None,
            trace_state: None,
            flags: None,
        },
    }
}

impl ReportTrace {
    /// A trace with no context and no events.
    pub fn new() -> (r: Self)
        ensures
            r.context is None,
            r.events@.len() == 0,
    {
        ReportTrace { context: None, events: Vec::new() }
    }

    /// Whether the trace holds neither context values nor events.
    pub fn is_empty(&self) -> (r: bool)
        ensures
            r == trace_is_empty(*self),
    {
        let context_empty = match &self.context {
            None => true,
            Some(c) => c.is_empty(),
        };
        context_empty && self.events.len() == 0
    }

    /// The context, if one was set.
    pub fn context(&self) -> (r: Option<&TraceContext>)
        ensures
            r matches Some(c) ==> self.context == Some(*c),
            r is None <==> self.context is None,
    {
        match &self.context {
            Some(c) => Some(c),
            None => None,
        }
    }

    /// The events, if a context or an event was ever set.
    pub fn events(&self) -> (r: &Vec<TraceEvent>)
        ensures
            r@ == self.events@,
    {
        &self.events
    }

    /// The context, for changing in place, if one was set.
    pub fn context_mut(&mut self) -> (r: Option<&mut TraceContext>)
        ensures
            r is None <==> old(self).context is None,
            r is None ==> *final(self) == *old(self),
            r matches Some(c) ==> *c == old(self).context->0,
            r matches Some(c) ==> final(self).context == Some(*final(c)),
            final(self).events == old(self).events,
    {
        match &mut self.context {
            Some(c) => Some(c),
            None => None,
        }
    }

    fn take_context(&mut self) -> (r: TraceContext)
        ensures
            r == trace_context_or_empty(*old(self)),
            final(self).events == old(self).events,
    {
        match self.context.take() {
            Some(c) => c,
            None => TraceContext::new(),
        }
    }

    /// Replaces the context.
    pub fn set_context(self, context: TraceContext) -> (r: Self)
        ensures
            r.context == Some(context),
            r.events == self.events,
    {
        ReportTrace { context: Some(context), events: self.events }
    }

    /// Sets the context only when the current one is absent or empty.
    pub fn with_context(self, context: TraceContext) -> (r: Self)
        ensures
            r.events == self.events,
            r.context == (if self.context is None || context_is_empty(self.context->0) {
                Some(context)
            } else {
                self.context
            }),
    {
        let empty = match &self.context {
            None => true,
            Some(c) => c.is_empty(),
        };
        if empty {
            ReportTrace { context: Some(context), events: self.events }
        } else {
            self
        }
    }

    /// Appends an event.
    pub fn with_event(self, event: TraceEvent) -> (r: Self)
        ensures
            r.context == self.context,
            r.events@ == self.events@.push(event),
    {
        let mut s = self;
        s.events.push(event);
        s
    }

    /// Replaces the trace id.
    pub fn set_trace_id(self, trace_id: TraceId) -> (r: Self)
        ensures
            r.context == Some(TraceContext { trace_id: Some(trace_id), ..trace_context_or_empty(self) }),
            r.events == self.events,
    {
        let mut s = self;
        let mut c = s.take_context();
        c.trace_id = Some(trace_id);
        s.context = Some(c);
        s
    }

    /// Sets the trace id only when none is set.
    pub fn with_trace_id(self, trace_id: TraceId) -> (r: Self)
        ensures
            r.events == self.events,
            trace_context_or_empty(self).trace_id is None ==> r.context == Some(
                TraceContext { trace_id: Some(trace_id), ..trace_context_or_empty(self) }),
            trace_context_or_empty(self).trace_id is Some ==> r.context == self.context,
    {
        let unset = match &self.context {
            Some(c) => c.trace_id.is_none(),
            None => true,
        };
        if unset { self.set_trace_id(trace_id) } else { self }
    }

    /// Replaces the span id.
    pub fn set_span_id(self, span_id: SpanId) -> (r: Self)
        ensures
            r.context == Some(TraceContext { span_id: Some(span_id), ..trace_context_or_empty(self) }),
            r.events == self.events,
    {
        let mut s = self;
        let mut c = s.take_context();
        c.span_id = Some(span_id);
        s.context = Some(c);
        s
    }

    /// Sets the span id only when none is set.
    pub fn with_span_id(self, span_id: SpanId) -> (r: Self)
        ensures
            r.events == self.events,
            trace_context_or_empty(self).span_id is None ==> r.context == Some(
                TraceContext { span_id: Some(span_id), ..trace_context_or_empty(self) }),
            trace_context_or_empty(self).span_id is Some ==> r.context == self.context,
    {
        let unset = match &self.context {
            Some(c) => c.span_id.is_none(),
            None => true,
        };
        if unset { self.set_span_id(span_id) } else { self }
    }

    /// Replaces the parent span id.
    pub fn set_parent_span_id(self, parent_span_id: ParentSpanId) -> (r: Self)
        ensures
            r.context == Some(TraceContext { parent_span_id: Some(parent_span_id), ..trace_context_or_empty(self) }),
            r.events == self.events,
    {
        let mut s = self;
        let mut c = s.take_context();
        c.parent_span_id = Some(parent_span_id);
        s.context = Some(c);
        s
    }

    /// Sets the parent span id only when none is set.
    pub fn with_parent_span_id(self, parent_span_id: ParentSpanId) -> (r: Self)
        ensures
            r.events == self.events,
            trace_context_or_empty(self).parent_span_id is None ==> r.context == Some(
                TraceContext { parent_span_id: Some(parent_span_id), ..trace_context_or_empty(self) }),
            trace_context_or_empty(self).parent_span_id is Some ==> r.context == self.context,
    {
        let unset = match &self.context {
            Some(c) => c.parent_span_id.is_none(),
            None => true,
        };
        if unset { self.set_parent_span_id(parent_span_id) } else { self }
    }

    /// Replaces the sampled flag and brings bit 0 of the flags in step.
    pub fn set_sampled(self, sampled: bool) -> (r: Self)
        ensures
            r.events == self.events,
            r.context == Some(TraceContext {
                sampled: Some(sampled),
                flags: flags_after_sampled(trace_context_or_empty(self).flags, sampled),
                ..trace_context_or_empty(self)
            }),
    {
        let mut s = self;
        let mut c = s.take_context();
        c.sampled = Some(sampled);
        sync_flags_with_sampled(&mut c);
        s.context = Some(c);
        s
    }

    /// Sets the sampled flag only when none is set.
    pub fn with_sampled(self, sampled: bool) -> (r: Self)
        ensures
            r.events == self.events,
            trace_context_or_empty(self).sampled is None ==> r.context == Some(TraceContext {
                sampled: Some(sampled),
                flags: flags_after_sampled(trace_context_or_empty(self).flags, sampled),
                ..trace_context_or_empty(self)
            }),
            trace_context_or_empty(self).sampled is Some ==> r.context == self.context,
    {
        let unset = match &self.context {
            Some(c) => c.sampled.is_none(),
            None => true,
        };
        if unset { self.set_sampled(sampled) } else { self }
    }

    /// Replaces the trace state.
    pub fn set_trace_state(self, trace_state: String) -> (r: Self)
        ensures
            r.events == self.events,
            r.context == Some(TraceContext {
                trace_state: Some(TraceState { value: trace_state }),
                ..trace_context_or_empty(self)
            }),
    {
        let mut s = self;
        let mut c = s.take_context();
        c.trace_state = Some(TraceState { value: trace_state });
        s.context = Some(c);
        s
    }

    /// Sets the trace state only when none is set.
    pub fn with_trace_state(self, trace_state: String) -> (r: Self)
        ensures
            r.events == self.events,
            trace_context_or_empty(self).trace_state is None ==> r.context == Some(TraceContext {
                trace_state: Some(TraceState { value: trace_state }),
                ..trace_context_or_empty(self)
            }),
            trace_context_or_empty(self).trace_state is Some ==> r.context == self.context,
    {
        let unset = match &self.context {
            Some(c) => c.trace_state.is_none(),
            None => true,
        };
        if unset { self.set_trace_state(trace_state) } else { self }
    }

    /// Replaces the flags and brings the sampled flag in step with bit 0.
    pub fn set_flags(self, flags: TraceFlags) -> (r: Self)
        ensures
            r.events == self.events,
            r.context == Some(TraceContext {
                flags: Some(flags),
                sampled: Some(flags.bits & 1u8 == 1u8),
                ..trace_context_or_empty(self)
            }),
    {
        let mut s = self;
        let mut c = s.take_context();
        c.flags = Some(flags);
        sync_sampled_with_flags(&mut c);
        s.context = Some(c);
        s
    }

    /// Sets the flags only when none are set.
    pub fn with_flags(self, flags: TraceFlags) -> (r: Self)
        ensures
            r.events == self.events,
            trace_context_or_empty(self).flags is None ==> r.context == Some(TraceContext {
                flags: Some(flags),
                sampled: Some(flags.bits & 1u8 == 1u8),
                ..trace_context_or_empty(self)
            }),
            trace_context_or_empty(self).flags is Some ==> r.context == self.context,
    {
        let unset = match &self.context {
            Some(c) => c.flags.is_none(),
            None => true,
        };
        if unset { self.set_flags(flags) } else { self }
    }

    /// Sets the trace id from an option, only when one is given and none is set.
    pub fn set_trace_id_opt(self, trace_id: Option<TraceId>) -> (r: Self)
        ensures
            r.events == self.events,
            (trace_id is Some && trace_context_or_empty(self).trace_id is None) ==> r.context == Some(
                TraceContext { trace_id: trace_id, ..trace_context_or_empty(self) }),
            !(trace_id is Some && trace_context_or_empty(self).trace_id is None) ==> r.context == self.context,
    {
        match trace_id {
            Some(t) => self.with_trace_id(t),
            None => self,
        }
    }

    /// Sets the span id from an option, only when one is given and none is set.
    pub fn set_span_id_opt(self, span_id: Option<SpanId>) -> (r: Self)
        ensures
            r.events == self.events,
            (span_id is Some && trace_context_or_empty(self).span_id is None) ==> r.context == Some(
                TraceContext { span_id: span_id, ..trace_context_or_empty(self) }),
            !(span_id is Some && trace_context_or_empty(self).span_id is None) ==> r.context == self.context,
    {
        match span_id {
            Some(t) => self.with_span_id(t),
            None => self,
        }
    }

    /// Sets the parent span id from an option, only when one is given and none is set.
    pub fn set_parent_span_id_opt(self, parent_span_id: Option<ParentSpanId>) -> (r: Self)
        ensures
            r.events == self.events,
            (parent_span_id is Some && trace_context_or_empty(self).parent_span_id is None) ==> r.context == Some(
                TraceContext { parent_span_id: parent_span_id, ..trace_context_or_empty(self) }),
            !(parent_span_id is Some && trace_context_or_empty(self).parent_span_id is None) ==> r.context == self.context,
    {
        match parent_span_id {
            Some(p) => self.with_parent_span_id(p),
            None => self,
        }
    }

    /// Sets the trace state from an option, only when one is given and none is set.
    pub fn set_trace_state_opt(self, trace_state: Option<TraceState>) -> (r: Self)
        ensures
            r.events == self.events,
            (trace_state is Some && trace_context_or_empty(self).trace_state is None) ==> r.context == Some(
                TraceContext { trace_state: trace_state, ..trace_context_or_empty(self) }),
            !(trace_state is Some && trace_context_or_empty(self).trace_state is None) ==> r.context == self.context,
    {
        match trace_state {
            Some(TraceState { value }) => self.with_trace_state(value),
            None => self,
        }
    }

    /// Sets the sampled flag from an option, only when one is given and none is set.
    pub fn set_sampled_opt(self, sampled: Option<bool>) -> (r: Self)
        ensures
            r.events == self.events,
            (sampled is Some && trace_context_or_empty(self).sampled is None) ==> r.context == Some(
                TraceContext {
                    sampled: sampled,
                    flags: flags_after_sampled(trace_context_or_empty(self).flags, sampled->0),
                    ..trace_context_or_empty(self)
                }),
            !(sampled is Some && trace_context_or_empty(self).sampled is None) ==> r.context == self.context,
    {
        match sampled {
            Some(s) => self.with_sampled(s),
            None => self,
        }
    }

    /// Sets the flags from an option, only when given and none are set.
    pub fn set_flags_opt(self, flags: Option<TraceFlags>) -> (r: Self)
        ensures
            r.events == self.events,
            (flags is Some && trace_context_or_empty(self).flags is None) ==> r.context == Some(
                TraceContext {
                    flags: flags,
                    sampled: Some(flags->0.bits & 1u8 == 1u8),
                    ..trace_context_or_empty(self)
                }),
            !(flags is Some && trace_context_or_empty(self).flags is None) ==> r.context == self.context,
    {
        match flags {
            Some(f) => self.with_flags(f),
            None => self,
        }
    }
}

/// Every setter of the sampled flag or of the flags leaves a context whose
/// sampled flag agrees with bit 0 of its flags.
pub proof fn lemma_setters_keep_sampled_in_step(t: ReportTrace, sampled: bool, flags: TraceFlags)
    ensures
        sampled_in_step(TraceContext {
            sampled: Some(sampled),
            flags: flags_after_sampled(trace_context_or_empty(t).flags, sampled),
            ..trace_context_or_empty(t)
        }),
        sampled_in_step(TraceContext {
            flags: Some(flags),
            sampled: Some(flags.bits & 1u8 == 1u8),
            ..trace_context_or_empty(t)
        }),
{
    lemma_sampled_sets_flag_bit(trace_context_or_empty(t).flags, sampled);
}

} // verus!
