//! OpenTelemetry log records of a report, shaped like the OTLP log data
//! model: one `exception` record for the report, then one record per trace
//! event.

use vstd::prelude::*;
use crate::attachment::{entries_model, items_model, lemma_entries_model_len, lemma_items_model_len, opt_str_model, Attachment, AttachmentValue, ContextValue, FloatValue, ValueModel};
use crate::error_code::{ErrorCode, ErrorCodeView};
use crate::report::{system_entries, Report, StackFrame, StackTrace, StackTraceFormat};
use crate::severity::{severity_label, Severity};
use crate::source_chain::{display_type_name, opt_view, SourceErrorChain, SourceErrorItem};
use crate::text::{append_str, str_to_string};
use crate::trace::{trace_context_or_empty, trace_level_label, ParentSpanId, SpanId, TraceContext, TraceEvent, TraceEventLevel, TraceId, TraceState};

verus! {

/// Severity numbers allowed by the OTLP log data model.
#[derive(Debug, Clone, Copy, PartialEq, Eq, Structural)]
pub struct OtelSeverityNumber {
    value: u8,
}

/// The severity numbers OTLP names: trace, debug, info, warn, error, fatal.
pub open spec fn valid_severity_number(v: u8) -> bool {
    v == 1 || v == 5 || v == 9 || v == 13 || v == 17 || v == 21
}

/// The OTLP number of a report severity.
pub open spec fn severity_number_of(s: Severity) -> u8 {
    match s {
        Severity::Debug => 5,
        Severity::Info => 9,
        Severity::Warn => 13,
        Severity::Error => 17,
        Severity::Fatal => 21,
    }
}

/// The OTLP number of a trace-event level.
pub open spec fn level_number_of(l: TraceEventLevel) -> u8 {
    match l {
        TraceEventLevel::Trace => 1,
        TraceEventLevel::Debug => 5,
        TraceEventLevel::Info => 9,
        TraceEventLevel::Warn => 13,
        TraceEventLevel::Error => 17,
    }
}

/// Why a number is not an OTLP severity number.
#[derive(Debug, Clone, Copy, PartialEq, Eq, Structural)]
pub struct InvalidSeverityNumber;

impl OtelSeverityNumber {
    pub closed spec fn spec_value(self) -> u8 {
        self.value
    }

    #[verifier::type_invariant]
    closed spec fn valid(self) -> bool {
        valid_severity_number(self.value)
    }

    /// The number.
    pub fn as_u8(self) -> (r: u8)
        ensures
            r == self.spec_value(),
            valid_severity_number(r),
    {
        proof { use_type_invariant(&self); }
        self.value
    }

    /// The number of `value`, when OTLP names it.
    pub fn try_from_u8(value: u8) -> (r: Result<Self, InvalidSeverityNumber>)
        ensures
            r is Ok <==> valid_severity_number(value),
            r matches Ok(n) ==> n.spec_value() == value,
    {
        if value == 1 || value == 5 || value == 9 || value == 13 || value == 17 || value == 21 {
            Ok(OtelSeverityNumber { value })
        } else {
            Err(InvalidSeverityNumber)
        }
    }

    /// The number of a report severity.
    pub fn from_severity(s: Severity) -> (r: Self)
        ensures
            r.spec_value() == severity_number_of(s),
    {
        let value = match s {
            Severity::Debug => 5,
            Severity::Info => 9,
            Severity::Warn => 13,
            Severity::Error => 17,
            Severity::Fatal => 21,
        };
        OtelSeverityNumber { value }
    }

    /// The number of a trace-event level.
    pub fn from_level(l: TraceEventLevel) -> (r: Self)
        ensures
            r.spec_value() == level_number_of(l),
    {
        let value = match l {
            TraceEventLevel::Trace => 1,
            TraceEventLevel::Debug => 5,
            TraceEventLevel::Info => 9,
            TraceEventLevel::Warn => 13,
            TraceEventLevel::Error => 17,
        };
        OtelSeverityNumber { value }
    }
}

/// An OTLP attribute value.
#[derive(Debug, PartialEq)]
pub enum OtelValue {
    String(String),
    Int(i64),
    U64(u64),
    Double(FloatValue),
    Bool(bool),
    Bytes(Vec<u8>),
    Array(Vec<OtelValue>),
    KvList(Vec<(String, OtelValue)>),
}

/// A key and its value.
#[derive(Debug, PartialEq)]
pub struct OtelAttribute {
    pub key: String,
    pub value: OtelValue,
}

/// The plain value of an OTLP value.
pub enum OtelModel {
    Str(Seq<char>),
    Int(int),
    U64(int),
    Double(u64, Seq<char>),
    Bool(bool),
    Bytes(Seq<u8>),
    Array(Seq<OtelModel>),
    KvList(Seq<(Seq<char>, OtelModel)>),
}

pub open spec fn otel_model(v: OtelValue) -> OtelModel
    decreases v, 2nat,
{
    match v {
        OtelValue::String(s) => OtelModel::Str(s@),
        OtelValue::Int(i) => OtelModel::Int(i as int),
        OtelValue::U64(u) => OtelModel::U64(u as int),
        OtelValue::Double(f) => OtelModel::Double(f.bits, f.text@),
        OtelValue::Bool(b) => OtelModel::Bool(b),
        OtelValue::Bytes(b) => OtelModel::Bytes(b@),
        OtelValue::Array(items) => OtelModel::Array(otel_items_model(items@)),
        OtelValue::KvList(kvs) => OtelModel::KvList(otel_kvs_model(kvs@)),
    }
}

pub open spec fn otel_items_model(items: Seq<OtelValue>) -> Seq<OtelModel>
    decreases items, 1nat,
{
    if items.len() == 0 { Seq::empty() } else { otel_items_model(items.drop_last()).push(otel_model(items.last())) }
}

pub open spec fn otel_kvs_model(kvs: Seq<(String, OtelValue)>) -> Seq<(Seq<char>, OtelModel)>
    decreases kvs, 1nat,
{
    if kvs.len() == 0 { Seq::empty() } else { otel_kvs_model(kvs.drop_last()).push((kvs.last().0@, otel_model(kvs.last().1))) }
}

impl View for OtelValue {
    type V = OtelModel;

    open spec fn view(&self) -> OtelModel {
        otel_model(*self)
    }
}

/// The plain form of a list of attributes.
pub open spec fn attrs_model(attrs: Seq<OtelAttribute>) -> Seq<(Seq<char>, OtelModel)> {
    attrs.map_values(|a: OtelAttribute| (a.key@, a.value@))
}

/// The plain items of an OTLP array: one per item.
pub proof fn lemma_otel_items_model(items: Seq<OtelValue>)
    ensures
        otel_items_model(items).len() == items.len(),
    decreases items.len(),
{
    if items.len() > 0 {
        lemma_otel_items_model(items.drop_last());
    }
}

/// The plain entries of an OTLP key-value list: one per entry.
pub proof fn lemma_otel_kvs_model(kvs: Seq<(String, OtelValue)>)
    ensures
        otel_kvs_model(kvs).len() == kvs.len(),
    decreases kvs.len(),
{
    if kvs.len() > 0 {
        lemma_otel_kvs_model(kvs.drop_last());
    }
}

fn push_otel_item(items: &mut Vec<OtelValue>, v: OtelValue)
    ensures
        otel_items_model(final(items)@) == otel_items_model(old(items)@).push(v@),
{
    let ghost before = items@;
    items.push(v);
    proof { assert(items@.drop_last() =~= before); }
}

fn push_kv(kvs: &mut Vec<(String, OtelValue)>, key: &str, v: OtelValue)
    ensures
        otel_kvs_model(final(kvs)@) == otel_kvs_model(old(kvs)@).push((key@, v@)),
{
    let ghost before = kvs@;
    kvs.push((str_to_string(key), v));
    proof { assert(kvs@.drop_last() =~= before); }
}

fn push_attr(attrs: &mut Vec<OtelAttribute>, key: String, v: OtelValue)
    ensures
        attrs_model(final(attrs)@) == attrs_model(old(attrs)@).push((key@, v@)),
{
    let ghost before = attrs@;
    attrs.push(OtelAttribute { key, value: v });
    proof {
        assert(attrs_model(attrs@) =~= attrs_model(before).push((key@, v@)));
    }
}

/// The `kind` and `reason` attributes of a redacted marker, where set.
pub open spec fn redacted_kvs(kind: Option<Seq<char>>, reason: Option<Seq<char>>) -> Seq<(Seq<char>, OtelModel)> {
    (match kind { Some(k) => seq![("kind"@, OtelModel::Str(k))], None => Seq::empty() })
    + (match reason { Some(r) => seq![("reason"@, OtelModel::Str(r))], None => Seq::empty() })
}

/// The OTLP value of an attachment value: scalars map to scalars, arrays to
/// arrays, objects and redacted markers to key-value lists, null to an
/// empty key-value list.
pub open spec fn otel_of_value(v: ValueModel) -> OtelModel
    decreases v, 2nat,
{
    match v {
        ValueModel::Null => OtelModel::KvList(Seq::empty()),
        ValueModel::Text(s) => OtelModel::Str(s),
        ValueModel::Integer(i) => OtelModel::Int(i),
        ValueModel::Unsigned(u) => OtelModel::U64(u),
        ValueModel::Float(bits, t) => OtelModel::Double(bits, t),
        ValueModel::Bool(b) => OtelModel::Bool(b),
        ValueModel::Array(items) => OtelModel::Array(otel_of_values(items)),
        ValueModel::Object(entries) => OtelModel::KvList(otel_of_entries(entries)),
        ValueModel::Bytes(b) => OtelModel::Bytes(b),
        ValueModel::Redacted(kind, reason) => OtelModel::KvList(redacted_kvs(kind, reason)),
    }
}

pub open spec fn otel_of_values(items: Seq<ValueModel>) -> Seq<OtelModel>
    decreases items, 1nat,
{
    if items.len() == 0 { Seq::empty() } else { otel_of_values(items.drop_last()).push(otel_of_value(items.last())) }
}

pub open spec fn otel_of_entries(entries: Seq<(Seq<char>, ValueModel)>) -> Seq<(Seq<char>, OtelModel)>
    decreases entries, 1nat,
{
    if entries.len() == 0 { Seq::empty() } else {
        otel_of_entries(entries.drop_last()).push((entries.last().0, otel_of_value(entries.last().1)))
    }
}

impl OtelValue {
    /// The OTLP value of an attachment value.
    pub fn from_attachment_ref(v: &AttachmentValue) -> (r: OtelValue)
        ensures
            r@ == otel_of_value(v@),
        decreases v,
    {
        match v {
            AttachmentValue::Null => OtelValue::KvList(Vec::new()),
            AttachmentValue::String(s) => OtelValue::String(s.clone()),
            AttachmentValue::Integer(i) => OtelValue::Int(*i),
            AttachmentValue::Unsigned(u) => OtelValue::U64(*u),
            AttachmentValue::Float(f) => OtelValue::Double(f.copy()),
            AttachmentValue::Bool(b) => OtelValue::Bool(*b),
            AttachmentValue::Array(items) => {
                let mut out: Vec<OtelValue> = Vec::new();
                let mut i: usize = 0;
                while i < items.len()
                    invariant
                        i <= items@.len(),
                        *v == AttachmentValue::Array(*items),
                        otel_items_model(out@) == otel_of_values(items_model(items@.take(i as int))),
                    decreases items@.len() - i,
                {
                    proof {
                        vstd::std_specs::vec::axiom_vec_index_decreases(*items, i as int);
                        assert(decreases_to!(*v => v->Array_0));
                        assert(decreases_to!(*v => items[i as int]));
                        let t = items@.take(i as int + 1);
                        assert(t.drop_last() =~= items@.take(i as int));
                        lemma_items_model_len(t);
                        lemma_items_model_len(items@.take(i as int));
                        assert(items_model(t).drop_last() =~= items_model(items@.take(i as int)));
                    }
                    push_otel_item(&mut out, OtelValue::from_attachment_ref(&items[i]));
                    i = i + 1;
                }
                proof { assert(items@.take(items@.len() as int) =~= items@); }
                OtelValue::Array(out)
            },
            AttachmentValue::Object(entries) => {
                let mut out: Vec<(String, OtelValue)> = Vec::new();
                let mut i: usize = 0;
                while i < entries.len()
                    invariant
                        i <= entries@.len(),
                        *v == AttachmentValue::Object(*entries),
                        otel_kvs_model(out@) == otel_of_entries(entries_model(entries@.take(i as int))),
                    decreases entries@.len() - i,
                {
                    proof {
                        vstd::std_specs::vec::axiom_vec_index_decreases(*entries, i as int);
                        assert(decreases_to!(*v => v->Object_0));
                        assert(decreases_to!(entries[i as int] => entries[i as int].1));
                        assert(decreases_to!(*v => entries[i as int].1));
                        let t = entries@.take(i as int + 1);
                        assert(t.drop_last() =~= entries@.take(i as int));
                        lemma_entries_model_len(t);
                        lemma_entries_model_len(entries@.take(i as int));
                        assert(entries_model(t).drop_last() =~= entries_model(entries@.take(i as int)));
                    }
                    push_kv(&mut out, entries[i].0.as_str(), OtelValue::from_attachment_ref(&entries[i].1));
                    i = i + 1;
                }
                proof { assert(entries@.take(entries@.len() as int) =~= entries@); }
                OtelValue::KvList(out)
            },
            AttachmentValue::Bytes(b) => {
                let c = b.clone();
                proof { assert(c@ =~= b@); }
                OtelValue::Bytes(c)
            },
            AttachmentValue::Redacted { kind, reason } => OtelValue::KvList(redacted_attrs(kind, reason)),
        }
    }

    /// The OTLP value of an attachment value, taken by value.
    pub fn from_attachment(v: AttachmentValue) -> (r: OtelValue)
        ensures
            r@ == otel_of_value(v@),
    {
        OtelValue::from_attachment_ref(&v)
    }

    /// The OTLP value of a context value.
    pub fn from_context_ref(v: &ContextValue) -> (r: OtelValue)
        ensures
            r@ == otel_of_value(v@),
    {
        OtelValue::from_attachment_ref(v)
    }
}

/// The `kind` and `reason` attributes of a redacted marker.
pub fn redacted_attrs(kind: &Option<String>, reason: &Option<String>) -> (r: Vec<(String, OtelValue)>)
    ensures
        otel_kvs_model(r@) == redacted_kvs(opt_str_model(*kind), opt_str_model(*reason)),
{
    let mut attrs: Vec<(String, OtelValue)> = Vec::new();
    match kind {
        Some(k) => push_kv(&mut attrs, "kind", OtelValue::String(k.clone())),
        None => {},
    }
    let ghost mid = otel_kvs_model(attrs@);
    match reason {
        Some(r) => push_kv(&mut attrs, "reason", OtelValue::String(r.clone())),
        None => {},
    }
    proof {
        assert(otel_kvs_model(attrs@) =~= redacted_kvs(opt_str_model(*kind), opt_str_model(*reason)));
    }
    attrs
}

/// Naming of the library's own attribute keys: an optional namespace prefix.
#[derive(Debug, PartialEq, Eq)]
pub struct OtelEnvelopeConfig {
    pub namespace: Option<String>,
}

/// `<namespace>.<section>.<key>`, or `<section>.<key>` without a namespace.
pub open spec fn section_key(ns: Option<Seq<char>>, section: Seq<char>, key: Seq<char>) -> Seq<char> {
    match ns {
        Some(n) => n + "."@ + section + "."@ + key,
        None => section + "."@ + key,
    }
}

/// Context keys stay bare without a namespace.
pub open spec fn context_key(ns: Option<Seq<char>>, key: Seq<char>) -> Seq<char> {
    match ns {
        Some(n) => n + ".context."@ + key,
        None => key,
    }
}

impl OtelEnvelopeConfig {
    /// No namespace: the compatible key names.
    pub fn new() -> (r: Self)
        ensures
            r.namespace is None,
    {
        OtelEnvelopeConfig { namespace: None }
    }

    /// Puts the library's own keys under `namespace`.
    pub fn with_namespace(self, namespace: String) -> (r: Self)
        ensures
            r.namespace == Some(namespace),
    {
        OtelEnvelopeConfig { namespace: Some(namespace) }
    }

    /// The namespace, if any.
    pub fn namespace(&self) -> (r: Option<&String>)
        ensures
            r matches Some(n) ==> self.namespace == Some(*n),
            r is None <==> self.namespace is None,
    {
        match &self.namespace {
            Some(n) => Some(n),
            None => None,
        }
    }

    /// The key of a context entry.
    pub fn context_key(&self, key: &str) -> (r: String)
        ensures
            r@ == context_key(opt_str_model(self.namespace), key@),
    {
        match &self.namespace {
            Some(n) => {
                let mut s = n.clone();
                append_str(&mut s, ".context.");
                append_str(&mut s, key);
                s
            },
            None => str_to_string(key),
        }
    }

    /// The key of an entry of `section` (`system`, `diagnostic_bag`, `attachment`).
    pub fn section_key(&self, section: &str, key: &str) -> (r: String)
        ensures
            r@ == section_key(opt_str_model(self.namespace), section@, key@),
    {
        let mut s = match &self.namespace {
            Some(n) => {
                let mut s = n.clone();
                append_str(&mut s, ".");
                s
            },
            None => String::new(),
        };
        append_str(&mut s, section);
        append_str(&mut s, ".");
        append_str(&mut s, key);
        proof {
            assert(s@ =~= section_key(opt_str_model(self.namespace), section@, key@));
        }
        s
    }
}

/// The attributes of a stack frame that are set.
pub open spec fn frame_kvs(f: StackFrame) -> Seq<(Seq<char>, OtelModel)> {
    (match f.symbol { Some(s) => seq![("symbol"@, OtelModel::Str(s@))], None => Seq::empty() })
    + (match f.module { Some(s) => seq![("module_path"@, OtelModel::Str(s@))], None => Seq::empty() })
    + (match f.file { Some(s) => seq![("file"@, OtelModel::Str(s@))], None => Seq::empty() })
    + (match f.line { Some(n) => seq![("line"@, OtelModel::U64(n as int))], None => Seq::empty() })
    + (match f.column { Some(n) => seq![("column"@, OtelModel::U64(n as int))], None => Seq::empty() })
}

/// The OTLP value of a stack trace: format, frames and, when present, raw text.
pub open spec fn stack_trace_value(st: StackTrace) -> OtelModel {
    OtelModel::KvList(seq![
        ("format"@, OtelModel::Str(match st.format { StackTraceFormat::Native => "native"@, StackTraceFormat::Raw => "raw"@ })),
        ("frames"@, OtelModel::Array(st.frames@.map_values(|f: StackFrame| OtelModel::KvList(frame_kvs(f))))),
    ] + (match st.raw { Some(r) => seq![("raw"@, OtelModel::Str(r@))], None => Seq::empty() }))
}

fn frame_value(f: &StackFrame) -> (r: OtelValue)
    ensures
        r@ == OtelModel::KvList(frame_kvs(*f)),
{
    let mut kvs: Vec<(String, OtelValue)> = Vec::new();
    let ghost k0 = otel_kvs_model(kvs@);
    match &f.symbol { Some(s) => push_kv(&mut kvs, "symbol", OtelValue::String(s.clone())), None => {} }
    let ghost k1 = otel_kvs_model(kvs@);
    match &f.module { Some(s) => push_kv(&mut kvs, "module_path", OtelValue::String(s.clone())), None => {} }
    let ghost k2 = otel_kvs_model(kvs@);
    match &f.file { Some(s) => push_kv(&mut kvs, "file", OtelValue::String(s.clone())), None => {} }
    let ghost k3 = otel_kvs_model(kvs@);
    match f.line { Some(n) => push_kv(&mut kvs, "line", OtelValue::U64(n as u64)), None => {} }
    let ghost k4 = otel_kvs_model(kvs@);
    match f.column { Some(n) => push_kv(&mut kvs, "column", OtelValue::U64(n as u64)), None => {} }
    proof {
        assert(otel_kvs_model(kvs@) =~= frame_kvs(*f));
    }
    OtelValue::KvList(kvs)
}

/// The OTLP value of a stack trace.
pub fn otel_stack_trace_value(st: &StackTrace) -> (r: OtelValue)
    ensures
        r@ == stack_trace_value(*st),
{
    let mut frames: Vec<OtelValue> = Vec::new();
    let mut i: usize = 0;
    while i < st.frames.len()
        invariant
            i <= st.frames@.len(),
            otel_items_model(frames@) == st.frames@.take(i as int).map_values(|f: StackFrame| OtelModel::KvList(frame_kvs(f))),
        decreases st.frames@.len() - i,
    {
        push_otel_item(&mut frames, frame_value(&st.frames[i]));
        proof {
            assert(st.frames@.take(i as int + 1).map_values(|f: StackFrame| OtelModel::KvList(frame_kvs(f)))
                =~= st.frames@.take(i as int).map_values(|f: StackFrame| OtelModel::KvList(frame_kvs(f))).push(OtelModel::KvList(frame_kvs(st.frames@[i as int]))));
        }
        i = i + 1;
    }
    proof { assert(st.frames@.take(st.frames@.len() as int) =~= st.frames@); }
    let label = match st.format { StackTraceFormat::Native => "native", StackTraceFormat::Raw => "raw" };
    let mut kvs: Vec<(String, OtelValue)> = Vec::new();
    push_kv(&mut kvs, "format", OtelValue::String(str_to_string(label)));
    push_kv(&mut kvs, "frames", OtelValue::Array(frames));
    match &st.raw {
        Some(r) => push_kv(&mut kvs, "raw", OtelValue::String(r.clone())),
        None => {},
    }
    proof {
        assert(otel_kvs_model(kvs@) =~= match stack_trace_value(*st) { OtelModel::KvList(x) => x, _ => Seq::empty() });
    }
    OtelValue::KvList(kvs)
}

/// Ids as OTLP integers.
pub open spec fn ids_value(ids: Seq<usize>) -> OtelModel {
    OtelModel::Array(ids.map_values(|id: usize| OtelModel::Int((id as i64) as int)))
}

/// The attributes of an exported source node: message, shown type name
/// when there is one, and the ids of its sources.
pub open spec fn node_kvs(n: SourceErrorItem, hide: bool) -> Seq<(Seq<char>, OtelModel)> {
    seq![("message"@, OtelModel::Str(n.message@))]
    + (match display_type_name(opt_view(n.type_label), hide) { Some(t) => seq![("type"@, OtelModel::Str(t))], None => Seq::empty() })
    + seq![("source_roots"@, ids_value(n.source_roots@))]
}

/// The OTLP value of a source-error chain: roots, nodes and flags.
pub open spec fn source_errors_value(c: SourceErrorChain, hide: bool) -> OtelModel {
    OtelModel::KvList(seq![
        ("roots"@, ids_value(c.roots@)),
        ("nodes"@, OtelModel::Array(c.nodes@.map_values(|n: SourceErrorItem| OtelModel::KvList(node_kvs(n, hide))))),
        ("truncated"@, OtelModel::Bool(c.truncated)),
        ("cycle_detected"@, OtelModel::Bool(c.cycle_detected)),
    ])
}

fn ids_to_value(ids: &Vec<usize>) -> (r: OtelValue)
    ensures
        r@ == ids_value(ids@),
{
    let mut out: Vec<OtelValue> = Vec::new();
    let mut i: usize = 0;
    while i < ids.len()
        invariant
            i <= ids@.len(),
            otel_items_model(out@) == ids@.take(i as int).map_values(|id: usize| OtelModel::Int((id as i64) as int)),
        decreases ids@.len() - i,
    {
        let id = ids[i];
        push_otel_item(&mut out, OtelValue::Int(id as i64));
        proof {
            assert(ids@.take(i as int + 1).map_values(|id: usize| OtelModel::Int((id as i64) as int))
                =~= ids@.take(i as int).map_values(|id: usize| OtelModel::Int((id as i64) as int)).push(OtelModel::Int((id as i64) as int)));
        }
        i = i + 1;
    }
    proof { assert(ids@.take(ids@.len() as int) =~= ids@); }
    OtelValue::Array(out)
}

fn node_value(n: &SourceErrorItem, hide: bool) -> (r: OtelValue)
    ensures
        r@ == OtelModel::KvList(node_kvs(*n, hide)),
{
    let mut kvs: Vec<(String, OtelValue)> = Vec::new();
    push_kv(&mut kvs, "message", OtelValue::String(n.message.clone()));
    let ghost k1 = otel_kvs_model(kvs@);
    match n.type_name_for_display(hide) {
        Some(t) => push_kv(&mut kvs, "type", OtelValue::String(t)),
        None => {},
    }
    let ghost k2 = otel_kvs_model(kvs@);
    push_kv(&mut kvs, "source_roots", ids_to_value(&n.source_roots));
    proof {
        assert(otel_kvs_model(kvs@) =~= node_kvs(*n, hide));
    }
    OtelValue::KvList(kvs)
}

/// The OTLP value of a source-error chain.
pub fn otel_source_errors_value(c: &SourceErrorChain, hide_report_wrapper_types: bool) -> (r: OtelValue)
    ensures
        r@ == source_errors_value(*c, hide_report_wrapper_types),
{
    let mut nodes: Vec<OtelValue> = Vec::new();
    let mut i: usize = 0;
    while i < c.nodes.len()
        invariant
            i <= c.nodes@.len(),
            otel_items_model(nodes@) == c.nodes@.take(i as int).map_values(|n: SourceErrorItem| OtelModel::KvList(node_kvs(n, hide_report_wrapper_types))),
        decreases c.nodes@.len() - i,
    {
        push_otel_item(&mut nodes, node_value(&c.nodes[i], hide_report_wrapper_types));
        proof {
            assert(c.nodes@.take(i as int + 1).map_values(|n: SourceErrorItem| OtelModel::KvList(node_kvs(n, hide_report_wrapper_types)))
                =~= c.nodes@.take(i as int).map_values(|n: SourceErrorItem| OtelModel::KvList(node_kvs(n, hide_report_wrapper_types))).push(
                    OtelModel::KvList(node_kvs(c.nodes@[i as int], hide_report_wrapper_types))));
        }
        i = i + 1;
    }
    proof { assert(c.nodes@.take(c.nodes@.len() as int) =~= c.nodes@); }
    let mut kvs: Vec<(String, OtelValue)> = Vec::new();
    push_kv(&mut kvs, "roots", ids_to_value(&c.roots));
    push_kv(&mut kvs, "nodes", OtelValue::Array(nodes));
    push_kv(&mut kvs, "truncated", OtelValue::Bool(c.truncated));
    push_kv(&mut kvs, "cycle_detected", OtelValue::Bool(c.cycle_detected));
    proof {
        assert(otel_kvs_model(kvs@) =~= match source_errors_value(*c, hide_report_wrapper_types) { OtelModel::KvList(x) => x, _ => Seq::empty() });
    }
    OtelValue::KvList(kvs)
}

/// The OTLP value of the display causes: all items and the flags.
pub open spec fn display_causes_value(c: crate::report::DisplayCauseChain) -> OtelModel {
    OtelModel::KvList(seq![
        ("items"@, OtelModel::Array(c.items@.map_values(|s: String| OtelModel::Str(s@)))),
        ("truncated"@, OtelModel::Bool(c.truncated)),
        ("cycle_detected"@, OtelModel::Bool(c.cycle_detected)),
    ])
}

/// The OTLP value of the display causes.
pub fn otel_display_causes_value(c: &crate::report::DisplayCauseChain) -> (r: OtelValue)
    ensures
        r@ == display_causes_value(*c),
{
    let mut items: Vec<OtelValue> = Vec::new();
    let mut i: usize = 0;
    while i < c.items.len()
        invariant
            i <= c.items@.len(),
            otel_items_model(items@) == c.items@.take(i as int).map_values(|s: String| OtelModel::Str(s@)),
        decreases c.items@.len() - i,
    {
        push_otel_item(&mut items, OtelValue::String(c.items[i].clone()));
        proof {
            assert(c.items@.take(i as int + 1).map_values(|s: String| OtelModel::Str(s@))
                =~= c.items@.take(i as int).map_values(|s: String| OtelModel::Str(s@)).push(OtelModel::Str(c.items@[i as int]@)));
        }
        i = i + 1;
    }
    proof { assert(c.items@.take(c.items@.len() as int) =~= c.items@); }
    let mut kvs: Vec<(String, OtelValue)> = Vec::new();
    push_kv(&mut kvs, "items", OtelValue::Array(items));
    push_kv(&mut kvs, "truncated", OtelValue::Bool(c.truncated));
    push_kv(&mut kvs, "cycle_detected", OtelValue::Bool(c.cycle_detected));
    proof {
        assert(otel_kvs_model(kvs@) =~= match display_causes_value(*c) { OtelModel::KvList(x) => x, _ => Seq::empty() });
    }
    OtelValue::KvList(kvs)
}

/// The attributes of the diagnostic bag: display causes (when there are
/// any), origin and diagnostic source errors (when captured).
pub open spec fn diag_bag_attrs<E>(r: Report<E>, ns: Option<Seq<char>>) -> Seq<(Seq<char>, OtelModel)> {
    (match r.display_causes {
        Some(c) => if c.items@.len() > 0 {
            seq![(section_key(ns, "diagnostic_bag"@, "display_causes"@), display_causes_value(c))]
        } else { Seq::empty() },
        None => Seq::empty(),
    })
    + (match r.origin_source_errors {
        Some(c) => seq![(section_key(ns, "diagnostic_bag"@, "origin_source_errors"@), source_errors_value(c, true))],
        None => Seq::empty(),
    })
    + (match r.diagnostic_source_errors {
        Some(c) => seq![(section_key(ns, "diagnostic_bag"@, "diagnostic_source_errors"@), source_errors_value(c, false))],
        None => Seq::empty(),
    })
}

pub open spec fn context_attrs(entries: Seq<(String, ContextValue)>, ns: Option<Seq<char>>) -> Seq<(Seq<char>, OtelModel)> {
    entries.map_values(|e: (String, ContextValue)| (context_key(ns, e.0@), otel_of_value(e.1@)))
}

pub open spec fn system_attrs(entries: Seq<(String, ContextValue)>, ns: Option<Seq<char>>) -> Seq<(Seq<char>, OtelModel)> {
    entries.map_values(|e: (String, ContextValue)| (section_key(ns, "system"@, e.0@), otel_of_value(e.1@)))
}

/// The attributes of one attachment: a note's message; a payload's value and
/// its media type when given.
pub open spec fn attachment_attrs_of(a: Attachment, ns: Option<Seq<char>>) -> Seq<(Seq<char>, OtelModel)> {
    match a {
        Attachment::Note { message } => seq![(section_key(ns, "attachment"@, "note"@), OtelModel::Str(message@))],
        Attachment::Payload { name, value, media_type } => {
            seq![(section_key(ns, "attachment"@, "payload."@ + name@), otel_of_value(value@))]
            + match media_type {
                Some(mt) => seq![(section_key(ns, "attachment"@, "payload."@ + name@ + ".media_type"@), OtelModel::Str(mt@))],
                None => Seq::empty(),
            }
        },
    }
}

pub open spec fn attachment_attrs(atts: Seq<Attachment>, ns: Option<Seq<char>>) -> Seq<(Seq<char>, OtelModel)>
    decreases atts.len(),
{
    if atts.len() == 0 { Seq::empty() } else { attachment_attrs(atts.drop_last(), ns) + attachment_attrs_of(atts.last(), ns) }
}

pub open spec fn code_value(c: ErrorCodeView) -> OtelModel {
    match c {
        ErrorCodeView::Integer(i) => OtelModel::Int(i),
        ErrorCodeView::Text(s) => OtelModel::Str(s),
    }
}

/// The exception attributes: type, message, raw data, then the stack trace
/// and governance fields that are set.
pub open spec fn exception_attrs<E>(r: Report<E>) -> Seq<(Seq<char>, OtelModel)> {
    seq![
        ("exception.type"@, OtelModel::Str(r.type_label@)),
        ("exception.message"@, OtelModel::Str(r.message@)),
        ("exception.raw_data"@, OtelModel::KvList(seq![("message"@, OtelModel::Str(r.message@)), ("type"@, OtelModel::Str(r.type_label@))])),
    ]
    + (match r.stack_trace { Some(st) => seq![("exception.stacktrace"@, stack_trace_value(st))], None => Seq::empty() })
    + (match r.metadata.error_code { Some(c) => seq![("error.code"@, code_value(c@))], None => Seq::empty() })
    + (match r.metadata.category { Some(c) => seq![("error.category"@, OtelModel::Str(c@))], None => Seq::empty() })
    + (match r.metadata.retryable { Some(b) => seq![("error.retryable"@, OtelModel::Bool(b))], None => Seq::empty() })
}

/// Every attribute of the report record, in order.
pub open spec fn report_attrs<E>(r: Report<E>, ns: Option<Seq<char>>) -> Seq<(Seq<char>, OtelModel)> {
    diag_bag_attrs(r, ns)
    + context_attrs(r.context.entries(), ns)
    + system_attrs(system_entries(r.system), ns)
    + attachment_attrs(r.attachments@, ns)
    + exception_attrs(r)
}

fn push_attrs_diag_bag<E>(attrs: &mut Vec<OtelAttribute>, r: &Report<E>, cfg: &OtelEnvelopeConfig)
    ensures
        attrs_model(final(attrs)@) == attrs_model(old(attrs)@) + diag_bag_attrs(*r, opt_str_model(cfg.namespace)),
{
    let ghost start = attrs_model(attrs@);
    match &r.display_causes {
        Some(c) => {
            if c.items.len() > 0 {
                push_attr(attrs, cfg.section_key("diagnostic_bag", "display_causes"), otel_display_causes_value(c));
            }
        },
        None => {},
    }
    let ghost a = attrs_model(attrs@);
    match &r.origin_source_errors {
        Some(c) => push_attr(attrs, cfg.section_key("diagnostic_bag", "origin_source_errors"), otel_source_errors_value(c, true)),
        None => {},
    }
    let ghost b = attrs_model(attrs@);
    match &r.diagnostic_source_errors {
        Some(c) => push_attr(attrs, cfg.section_key("diagnostic_bag", "diagnostic_source_errors"), otel_source_errors_value(c, false)),
        None => {},
    }
    proof {
        assert(attrs_model(attrs@) =~= start + diag_bag_attrs(*r, opt_str_model(cfg.namespace)));
    }
}

pub open spec fn entry_attr(e: (String, ContextValue), ns: Option<Seq<char>>, system: bool) -> (Seq<char>, OtelModel) {
    if system { (section_key(ns, "system"@, e.0@), otel_of_value(e.1@)) } else { (context_key(ns, e.0@), otel_of_value(e.1@)) }
}

fn push_entry_attrs(attrs: &mut Vec<OtelAttribute>, entries: &Vec<(String, ContextValue)>, cfg: &OtelEnvelopeConfig, system: bool)
    ensures
        attrs_model(final(attrs)@) == attrs_model(old(attrs)@) + (if system {
            system_attrs(entries@, opt_str_model(cfg.namespace)) } else { context_attrs(entries@, opt_str_model(cfg.namespace)) }),
{
    let ghost start = attrs_model(attrs@);
    let ghost ns = opt_str_model(cfg.namespace);
    let mut i: usize = 0;
    proof {
        assert(entries@.take(0).map_values(|e: (String, ContextValue)| entry_attr(e, ns, system)) =~= Seq::<(Seq<char>, OtelModel)>::empty());
        assert(start + Seq::<(Seq<char>, OtelModel)>::empty() =~= start);
    }
    while i < entries.len()
        invariant
            i <= entries@.len(),
            ns == opt_str_model(cfg.namespace),
            attrs_model(attrs@) == start + entries@.take(i as int).map_values(|e: (String, ContextValue)| entry_attr(e, ns, system)),
        decreases entries@.len() - i,
    {
        let key = if system { cfg.section_key("system", entries[i].0.as_str()) } else { cfg.context_key(entries[i].0.as_str()) };
        push_attr(attrs, key, OtelValue::from_context_ref(&entries[i].1));
        proof {
            assert(entries@.take(i as int + 1).map_values(|e: (String, ContextValue)| entry_attr(e, ns, system))
                =~= entries@.take(i as int).map_values(|e: (String, ContextValue)| entry_attr(e, ns, system)).push(entry_attr(entries@[i as int], ns, system)));
        }
        i = i + 1;
    }
    proof {
        assert(entries@.take(entries@.len() as int) =~= entries@);
        if system {
            assert(entries@.map_values(|e: (String, ContextValue)| entry_attr(e, ns, system)) =~= system_attrs(entries@, ns));
        } else {
            assert(entries@.map_values(|e: (String, ContextValue)| entry_attr(e, ns, system)) =~= context_attrs(entries@, ns));
        }
    }
}

fn push_attachment_attrs(attrs: &mut Vec<OtelAttribute>, atts: &Vec<Attachment>, cfg: &OtelEnvelopeConfig)
    ensures
        attrs_model(final(attrs)@) == attrs_model(old(attrs)@) + attachment_attrs(atts@, opt_str_model(cfg.namespace)),
{
    let ghost start = attrs_model(attrs@);
    let ghost ns = opt_str_model(cfg.namespace);
    let mut i: usize = 0;
    proof {
        assert(atts@.take(0) =~= Seq::<Attachment>::empty());
        assert(start + attachment_attrs(atts@.take(0), ns) =~= start);
    }
    while i < atts.len()
        invariant
            i <= atts@.len(),
            ns == opt_str_model(cfg.namespace),
            attrs_model(attrs@) == start + attachment_attrs(atts@.take(i as int), ns),
        decreases atts@.len() - i,
    {
        let ghost prev = attrs_model(attrs@);
        match &atts[i] {
            Attachment::Note { message } => {
                push_attr(attrs, cfg.section_key("attachment", "note"), OtelValue::String(message.clone()));
            },
            Attachment::Payload { name, value, media_type } => {
                let mut k = str_to_string("payload.");
                append_str(&mut k, name.as_str());
                push_attr(attrs, cfg.section_key("attachment", k.as_str()), OtelValue::from_attachment_ref(value));
                match media_type {
                    Some(mt) => {
                        append_str(&mut k, ".media_type");
                        push_attr(attrs, cfg.section_key("attachment", k.as_str()), OtelValue::String(mt.clone()));
                    },
                    None => {},
                }
            },
        }
        proof {
            assert(atts@.take(i as int + 1).drop_last() =~= atts@.take(i as int));
            assert(attrs_model(attrs@) =~= prev + attachment_attrs_of(atts@[i as int], ns));
        }
        i = i + 1;
    }
    proof {
        assert(atts@.take(atts@.len() as int) =~= atts@);
    }
}

fn push_exception_attrs<E>(attrs: &mut Vec<OtelAttribute>, r: &Report<E>)
    ensures
        attrs_model(final(attrs)@) == attrs_model(old(attrs)@) + exception_attrs(*r),
{
    let ghost start = attrs_model(attrs@);
    push_attr(attrs, str_to_string("exception.type"), OtelValue::String(r.type_label.clone()));
    push_attr(attrs, str_to_string("exception.message"), OtelValue::String(r.message.clone()));
    let mut raw: Vec<(String, OtelValue)> = Vec::new();
    push_kv(&mut raw, "message", OtelValue::String(r.message.clone()));
    push_kv(&mut raw, "type", OtelValue::String(r.type_label.clone()));
    proof {
        assert(otel_kvs_model(raw@) =~= seq![("message"@, OtelModel::Str(r.message@)), ("type"@, OtelModel::Str(r.type_label@))]);
    }
    push_attr(attrs, str_to_string("exception.raw_data"), OtelValue::KvList(raw));
    let ghost a = attrs_model(attrs@);
    proof {
        assert(a =~= start + seq![
            ("exception.type"@, OtelModel::Str(r.type_label@)),
            ("exception.message"@, OtelModel::Str(r.message@)),
            ("exception.raw_data"@, OtelModel::KvList(seq![("message"@, OtelModel::Str(r.message@)), ("type"@, OtelModel::Str(r.type_label@))])),
        ]);
    }
    match &r.stack_trace {
        Some(st) => push_attr(attrs, str_to_string("exception.stacktrace"), otel_stack_trace_value(st)),
        None => {},
    }
    let ghost b = attrs_model(attrs@);
    match &r.metadata.error_code {
        Some(c) => {
            let v = match c {
                ErrorCode::Integer(i) => OtelValue::Int(*i),
                ErrorCode::String(s) => OtelValue::String(s.clone()),
            };
            push_attr(attrs, str_to_string("error.code"), v);
        },
        None => {},
    }
    let ghost c = attrs_model(attrs@);
    match &r.metadata.category {
        Some(cat) => push_attr(attrs, str_to_string("error.category"), OtelValue::String(cat.clone())),
        None => {},
    }
    let ghost d = attrs_model(attrs@);
    match r.metadata.retryable {
        Some(b) => push_attr(attrs, str_to_string("error.retryable"), OtelValue::Bool(b)),
        None => {},
    }
    proof {
        assert(attrs_model(attrs@) =~= start + exception_attrs(*r));
    }
}

/// Trace-context metadata of a record.
#[derive(Debug, PartialEq, Eq)]
pub struct OtelTraceContext {
    pub parent_span_id: Option<ParentSpanId>,
    pub trace_state: Option<TraceState>,
}

/// An OTLP log record.
#[derive(Debug, PartialEq)]
pub struct OtelEvent {
    pub name: String,
    pub body: Option<OtelValue>,
    pub timestamp_unix_nano: Option<u64>,
    pub observed_timestamp_unix_nano: Option<u64>,
    pub severity_text: Option<String>,
    pub severity_number: Option<OtelSeverityNumber>,
    pub trace_id: Option<TraceId>,
    pub span_id: Option<SpanId>,
    pub trace_flags: Option<u8>,
    pub trace_context: Option<OtelTraceContext>,
    pub attributes: Vec<OtelAttribute>,
}

/// A batch of OTLP log records.
#[derive(Debug, PartialEq)]
pub struct OtelEnvelope {
    pub records: Vec<OtelEvent>,
}

pub open spec fn opt_id_view<const N: usize>(o: Option<crate::trace::HexId<N>>) -> Option<Seq<char>> {
    match o { Some(id) => Some(id@), None => None }
}

/// The record's trace identifiers and context agree with the report's trace:
/// its trace id, span id and flag bits; its parent span id and trace state
/// when either is set.
pub open spec fn carries_trace_of(e: OtelEvent, c: TraceContext) -> bool {
    trace_parts_match(e.trace_id, e.span_id, e.trace_flags, e.trace_context, c)
}

pub open spec fn trace_parts_match(trace_id: Option<TraceId>, span_id: Option<SpanId>, trace_flags: Option<u8>,
    trace_context: Option<OtelTraceContext>, c: TraceContext) -> bool {
    &&& opt_id_view(trace_id) == opt_id_view(c.trace_id)
    &&& opt_id_view(span_id) == opt_id_view(c.span_id)
    &&& trace_flags == (match c.flags { Some(f) => Some(f.bits), None => None })
    &&& (c.parent_span_id is None && c.trace_state is None) ==> trace_context is None
    &&& !(c.parent_span_id is None && c.trace_state is None) ==> (trace_context matches Some(tc)
        && opt_id_view(tc.parent_span_id) == opt_id_view(c.parent_span_id)
        && opt_str_model(match tc.trace_state { Some(t) => Some(t.value), None => None })
            == opt_str_model(match c.trace_state { Some(t) => Some(t.value), None => None }))
}

/// The report record: named `exception`, the error's text as body, the
/// report's severity, the trace of the report, and the report attributes.
pub open spec fn is_report_event<E>(e: OtelEvent, r: Report<E>, ns: Option<Seq<char>>, sev: Severity) -> bool {
    &&& e.name@ == "exception"@
    &&& e.body matches Some(b) && b@ == OtelModel::Str(r.message@)
    &&& e.timestamp_unix_nano is None
    &&& e.observed_timestamp_unix_nano is None
    &&& e.severity_text matches Some(t) && t@ == severity_label(sev)
    &&& e.severity_number matches Some(n) && n.spec_value() == severity_number_of(sev)
    &&& carries_trace_of(e, trace_context_or_empty(r.trace))
    &&& attrs_model(e.attributes@) == report_attrs(r, ns)
}

pub open spec fn event_attrs(ev: TraceEvent) -> Seq<(Seq<char>, OtelModel)> {
    ev.attributes@.map_values(|a: crate::trace::TraceEventAttribute| (a.key@, otel_of_value(a.value@)))
}

/// The record of a trace event: its name, time and attributes, its level or
/// else the report's severity, and the report's trace.
pub open spec fn is_trace_event<E>(e: OtelEvent, ev: TraceEvent, r: Report<E>, sev: Severity) -> bool {
    &&& e.name@ == ev.name@
    &&& e.body is None
    &&& e.timestamp_unix_nano == ev.timestamp_unix_nano
    &&& e.observed_timestamp_unix_nano is None
    &&& e.severity_text matches Some(t) && t@ == (match ev.level { Some(l) => trace_level_label(l), None => severity_label(sev) })
    &&& e.severity_number matches Some(n) && n.spec_value() == (match ev.level { Some(l) => level_number_of(l), None => severity_number_of(sev) })
    &&& carries_trace_of(e, trace_context_or_empty(r.trace))
    &&& attrs_model(e.attributes@) == event_attrs(ev)
}

fn copy_opt_id<const N: usize>(o: &Option<crate::trace::HexId<N>>) -> (r: Option<crate::trace::HexId<N>>)
    ensures
        opt_id_view(r) == opt_id_view(*o),
{
    match o {
        Some(id) => Some(id.copy()),
        None => None,
    }
}

fn trace_parts(c: &TraceContext) -> (r: (Option<TraceId>, Option<SpanId>, Option<u8>, Option<OtelTraceContext>))
    ensures
        trace_parts_match(r.0, r.1, r.2, r.3, *c),
{
    let tc = if c.parent_span_id.is_none() && c.trace_state.is_none() {
        None
    } else {
        Some(OtelTraceContext {
            parent_span_id: copy_opt_id(&c.parent_span_id),
            trace_state: match &c.trace_state {
                Some(t) => Some(TraceState { value: t.value.clone() }),
                None => None,
            },
        })
    };
    let flags = match c.flags { Some(f) => Some(f.bits), None => None };
    (copy_opt_id(&c.trace_id), copy_opt_id(&c.span_id), flags, tc)
}

impl<E> Report<E> {
    /// The report record.
    pub fn otel_report_ev(&self, config: &OtelEnvelopeConfig, severity: Severity) -> (e: OtelEvent)
        ensures
            is_report_event(e, *self, opt_str_model(config.namespace), severity),
    {
        let mut attributes: Vec<OtelAttribute> = Vec::new();
        push_attrs_diag_bag(&mut attributes, self, config);
        push_entry_attrs(&mut attributes, self.context.sorted_entries(), config, false);
        push_entry_attrs(&mut attributes, self.system.service.sorted_entries(), config, true);
        push_entry_attrs(&mut attributes, self.system.deployment.sorted_entries(), config, true);
        push_entry_attrs(&mut attributes, self.system.runtime.sorted_entries(), config, true);
        push_entry_attrs(&mut attributes, self.system.request.sorted_entries(), config, true);
        push_attachment_attrs(&mut attributes, &self.attachments, config);
        push_exception_attrs(&mut attributes, self);
        proof {
            let ns = opt_str_model(config.namespace);
            assert(system_attrs(system_entries(self.system), ns) =~= system_attrs(self.system.service.entries(), ns)
                + system_attrs(self.system.deployment.entries(), ns) + system_attrs(self.system.runtime.entries(), ns)
                + system_attrs(self.system.request.entries(), ns));
            assert(attrs_model(attributes@) =~= report_attrs(*self, ns));
        }
        let (trace_id, span_id, trace_flags, trace_context) = match &self.trace.context {
            Some(c) => trace_parts(c),
            None => trace_parts(&TraceContext::new()),
        };
        OtelEvent {
            name: str_to_string("exception"),
            body: Some(OtelValue::String(self.message.clone())),
            timestamp_unix_nano: None,
            observed_timestamp_unix_nano: None,
            severity_text: Some(str_to_string(severity.label())),
            severity_number: Some(OtelSeverityNumber::from_severity(severity)),
            trace_id,
            span_id,
            trace_flags,
            trace_context,
            attributes,
        }
    }

    /// The record of trace event `ev`.
    pub fn otel_trace_ev(&self, ev: &TraceEvent, severity: Severity) -> (e: OtelEvent)
        ensures
            is_trace_event(e, *ev, *self, severity),
    {
        let mut attributes: Vec<OtelAttribute> = Vec::new();
        let mut i: usize = 0;
        while i < ev.attributes.len()
            invariant
                i <= ev.attributes@.len(),
                attrs_model(attributes@) == ev.attributes@.take(i as int).map_values(|a: crate::trace::TraceEventAttribute| (a.key@, otel_of_value(a.value@))),
            decreases ev.attributes@.len() - i,
        {
            push_attr(&mut attributes, ev.attributes[i].key.clone(), OtelValue::from_attachment_ref(&ev.attributes[i].value));
            proof {
                assert(ev.attributes@.take(i as int + 1).map_values(|a: crate::trace::TraceEventAttribute| (a.key@, otel_of_value(a.value@)))
                    =~= ev.attributes@.take(i as int).map_values(|a: crate::trace::TraceEventAttribute| (a.key@, otel_of_value(a.value@))).push(
                        (ev.attributes@[i as int].key@, otel_of_value(ev.attributes@[i as int].value@))));
            }
            i = i + 1;
        }
        proof {
            assert(ev.attributes@.take(ev.attributes@.len() as int) =~= ev.attributes@);
        }
        let (text, number) = match ev.level {
            Some(l) => (str_to_string(l.label()), OtelSeverityNumber::from_level(l)),
            None => (str_to_string(severity.label()), OtelSeverityNumber::from_severity(severity)),
        };
        let (trace_id, span_id, trace_flags, trace_context) = match &self.trace.context {
            Some(c) => trace_parts(c),
            None => trace_parts(&TraceContext::new()),
        };
        OtelEvent {
            name: ev.name.clone(),
            body: None,
            timestamp_unix_nano: ev.timestamp_unix_nano,
            observed_timestamp_unix_nano: None,
            severity_text: Some(text),
            severity_number: Some(number),
            trace_id,
            span_id,
            trace_flags,
            trace_context,
            attributes,
        }
    }

    /// The OTLP records of the report: its own record, then one per trace
    /// event. A report needs a severity to be exported.
    pub fn to_otel_envelope(&self, config: &OtelEnvelopeConfig) -> (r: OtelEnvelope)
        requires
            self.metadata.severity is Some,
        ensures
            r.records@.len() == 1 + self.trace.events@.len(),
            is_report_event(r.records@[0], *self, opt_str_model(config.namespace), self.metadata.severity->0),
            forall|i: int| 0 <= i < self.trace.events@.len() ==>
                is_trace_event(#[trigger] r.records@[i + 1], self.trace.events@[i], *self, self.metadata.severity->0),
    {
        let severity = match self.metadata.severity {
            Some(s) => s,
            None => Severity::Error,
        };
        let mut records: Vec<OtelEvent> = Vec::new();
        records.push(self.otel_report_ev(config, severity));
        let mut i: usize = 0;
        while i < self.trace.events.len()
            invariant
                i <= self.trace.events@.len(),
                records@.len() == 1 + i,
                severity == self.metadata.severity->0,
                is_report_event(records@[0], *self, opt_str_model(config.namespace), severity),
                forall|j: int| 0 <= j < i ==> is_trace_event(#[trigger] records@[j + 1], self.trace.events@[j], *self, severity),
            decreases self.trace.events@.len() - i,
        {
            let e = self.otel_trace_ev(&self.trace.events[i], severity);
            records.push(e);
            i = i + 1;
        }
        OtelEnvelope { records }
    }
}

} // verus!
