//! The JSON rendering of a report.
//!
//! The document is an object: `schema_version` and `error` always, then
//! `metadata`, `diagnostic_bag`, `trace`, `context` and `attachments` as the
//! options show them. Attachment values are written as `{"kind", "value"}`
//! objects; a value holding a non-finite float cannot be written, and the
//! rendering then fails.

use vstd::prelude::*;
use crate::attachment::{float_bits_finite, items_model, entries_model, lemma_items_model_len, lemma_entries_model_len, opt_str_model, AttachmentValue, Attachment, ContextValue, ValueModel};
use crate::error_code::{ErrorCode, ErrorCodeView};
use crate::json::{json_fields_model, json_items_model, json_opt_str, json_str, push_field, push_item, to_json_string, json_text, JsonModel, JsonValue};
use crate::render::{Json, ReportRenderer, ReportRenderOptions};
use crate::report::{has_metadata, DisplayCauseChain, Report, ReportMetadata, StackFrame, StackTrace, StackTraceFormat};
use crate::severity::severity_label;
use crate::source_chain::{display_type_name, opt_view, view_truncated, SourceErrorChain};
use crate::config::CauseCollectOptions;
use crate::text::{dec_int, dec_nat, i64_to_string, u64_to_string};
use crate::trace::{trace_is_empty, trace_level_label, ReportTrace, TraceContext, TraceEvent, TraceEventAttribute};

verus! {

pub open spec fn opt_json_str(o: Option<Seq<char>>) -> JsonModel {
    match o {
        Some(s) => JsonModel::Str(s),
        None => JsonModel::Null,
    }
}

pub open spec fn kind_only(kind: Seq<char>) -> JsonModel {
    JsonModel::Object(seq![("kind"@, JsonModel::Str(kind))])
}

pub open spec fn kind_value(kind: Seq<char>, value: JsonModel) -> JsonModel {
    JsonModel::Object(seq![("kind"@, JsonModel::Str(kind)), ("value"@, value)])
}

pub open spec fn bytes_json(b: Seq<u8>) -> Seq<JsonModel>
    decreases b.len(),
{
    if b.len() == 0 { Seq::empty() } else { bytes_json(b.drop_last()).push(JsonModel::Number(dec_nat(b.last() as nat))) }
}

/// The JSON of an attachment value.
pub open spec fn value_json(v: ValueModel) -> JsonModel
    decreases v, 2nat,
{
    match v {
        ValueModel::Null => kind_only("null"@),
        ValueModel::Text(s) => kind_value("string"@, JsonModel::Str(s)),
        ValueModel::Integer(i) => kind_value("integer"@, JsonModel::Number(dec_int(i))),
        ValueModel::Unsigned(u) => kind_value("unsigned"@, JsonModel::Number(dec_nat(u as nat))),
        ValueModel::Float(_, t) => kind_value("float"@, JsonModel::Number(t)),
        ValueModel::Bool(b) => kind_value("bool"@, JsonModel::Bool(b)),
        ValueModel::Array(items) => kind_value("array"@, JsonModel::Array(values_json(items))),
        ValueModel::Object(entries) => kind_value("object"@, JsonModel::Object(entries_json(entries))),
        ValueModel::Bytes(b) => kind_value("bytes"@, JsonModel::Array(bytes_json(b))),
        ValueModel::Redacted(kind, reason) => kind_value("redacted"@, JsonModel::Object(seq![
            ("kind"@, opt_json_str(kind)), ("reason"@, opt_json_str(reason))])),
    }
}

pub open spec fn values_json(items: Seq<ValueModel>) -> Seq<JsonModel>
    decreases items, 1nat,
{
    if items.len() == 0 { Seq::empty() } else { values_json(items.drop_last()).push(value_json(items.last())) }
}

pub open spec fn entries_json(entries: Seq<(Seq<char>, ValueModel)>) -> Seq<(Seq<char>, JsonModel)>
    decreases entries, 1nat,
{
    if entries.len() == 0 { Seq::empty() } else { entries_json(entries.drop_last()).push((entries.last().0, value_json(entries.last().1))) }
}

/// Whether every float inside the value is finite.
pub open spec fn value_json_ok(v: ValueModel) -> bool
    decreases v, 2nat,
{
    match v {
        ValueModel::Float(bits, _) => float_bits_finite(bits),
        ValueModel::Array(items) => values_json_ok(items),
        ValueModel::Object(entries) => entries_json_ok(entries),
        _ => true,
    }
}

pub open spec fn values_json_ok(items: Seq<ValueModel>) -> bool
    decreases items, 1nat,
{
    items.len() == 0 || (values_json_ok(items.drop_last()) && value_json_ok(items.last()))
}

pub open spec fn entries_json_ok(entries: Seq<(Seq<char>, ValueModel)>) -> bool
    decreases entries, 1nat,
{
    entries.len() == 0 || (entries_json_ok(entries.drop_last()) && value_json_ok(entries.last().1))
}

fn kind_value_json(kind: &str, value: JsonValue) -> (r: JsonValue)
    ensures
        r@ == kind_value(kind@, value@),
{
    let mut f: Vec<(String, JsonValue)> = Vec::new();
    push_field(&mut f, "kind", json_str(kind));
    push_field(&mut f, "value", value);
    proof {
        assert(json_fields_model(f@) =~= seq![("kind"@, JsonModel::Str(kind@)), ("value"@, value@)]);
    }
    JsonValue::Object(f)
}

/// The JSON of an attachment value, or `None` when it holds a non-finite float.
pub fn value_to_json(v: &AttachmentValue) -> (r: Option<JsonValue>)
    ensures
        r is Some <==> value_json_ok(v@),
        r matches Some(j) ==> j@ == value_json(v@),
    decreases v,
{
    match v {
        AttachmentValue::Null => {
            let mut f: Vec<(String, JsonValue)> = Vec::new();
            push_field(&mut f, "kind", json_str("null"));
            proof { assert(json_fields_model(f@) =~= seq![("kind"@, JsonModel::Str("null"@))]); }
            Some(JsonValue::Object(f))
        },
        AttachmentValue::String(s) => Some(kind_value_json("string", JsonValue::Str(s.clone()))),
        AttachmentValue::Integer(i) => Some(kind_value_json("integer", JsonValue::Number(i64_to_string(*i)))),
        AttachmentValue::Unsigned(u) => Some(kind_value_json("unsigned", JsonValue::Number(u64_to_string(*u)))),
        AttachmentValue::Float(fl) => {
            if !fl.is_finite() {
                return None;
            }
            Some(kind_value_json("float", JsonValue::Number(fl.text.clone())))
        },
        AttachmentValue::Bool(b) => Some(kind_value_json("bool", JsonValue::Bool(*b))),
        AttachmentValue::Array(items) => {
            let mut out: Vec<JsonValue> = Vec::new();
            let mut i: usize = 0;
            while i < items.len()
                invariant
                    i <= items@.len(),
                    *v == AttachmentValue::Array(*items),
                    json_items_model(out@) == values_json(items_model(items@.take(i as int))),
                    values_json_ok(items_model(items@.take(i as int))),
                decreases items@.len() - i,
            {
                proof {
                    vstd::std_specs::vec::axiom_vec_index_decreases(*items, i as int);
                    assert(decreases_to!(*v => v->Array_0));
                    assert(decreases_to!(*v => items[i as int]));
                    let t = items@.take(i as int + 1);
                    assert(t.drop_last() =~= items@.take(i as int));
                    lemma_items_model_len(t);
                    lemma_items_model_len(items@.take(i as int));
                    assert(items_model(t).drop_last() =~= items_model(items@.take(i as int)));
                }
                match value_to_json(&items[i]) {
                    Some(j) => push_item(&mut out, j),
                    None => {
                        proof {
                            lemma_items_model_len(items@);
                            lemma_values_ok_all(items_model(items@), i as int);
                        }
                        return None;
                    },
                }
                i = i + 1;
            }
            proof {
                assert(items@.take(items@.len() as int) =~= items@);
            }
            Some(kind_value_json("array", JsonValue::Array(out)))
        },
        AttachmentValue::Object(entries) => {
            let mut out: Vec<(String, JsonValue)> = Vec::new();
            let mut i: usize = 0;
            while i < entries.len()
                invariant
                    i <= entries@.len(),
                    *v == AttachmentValue::Object(*entries),
                    json_fields_model(out@) == entries_json(entries_model(entries@.take(i as int))),
                    entries_json_ok(entries_model(entries@.take(i as int))),
                decreases entries@.len() - i,
            {
                proof {
                    vstd::std_specs::vec::axiom_vec_index_decreases(*entries, i as int);
                    assert(decreases_to!(*v => v->Object_0));
                    assert(decreases_to!(entries[i as int] => entries[i as int].1));
                    assert(decreases_to!(*v => entries[i as int].1));
                    let t = entries@.take(i as int + 1);
                    assert(t.drop_last() =~= entries@.take(i as int));
                    lemma_entries_model_len(t);
                    lemma_entries_model_len(entries@.take(i as int));
                    assert(entries_model(t).drop_last() =~= entries_model(entries@.take(i as int)));
                }
                match value_to_json(&entries[i].1) {
                    Some(j) => push_field(&mut out, entries[i].0.as_str(), j),
                    None => {
                        proof {
                            lemma_entries_model_len(entries@);
                            lemma_entries_ok_all(entries_model(entries@), i as int);
                        }
                        return None;
                    },
                }
                i = i + 1;
            }
            proof {
                assert(entries@.take(entries@.len() as int) =~= entries@);
            }
            Some(kind_value_json("object", JsonValue::Object(out)))
        },
        AttachmentValue::Bytes(b) => {
            let mut out: Vec<JsonValue> = Vec::new();
            let mut i: usize = 0;
            while i < b.len()
                invariant
                    i <= b@.len(),
                    json_items_model(out@) == bytes_json(b@.take(i as int)),
                decreases b@.len() - i,
            {
                push_item(&mut out, JsonValue::Number(u64_to_string(b[i] as u64)));
                proof {
                    assert(b@.take(i as int + 1).drop_last() =~= b@.take(i as int));
                }
                i = i + 1;
            }
            proof {
                assert(b@.take(b@.len() as int) =~= b@);
            }
            Some(kind_value_json("bytes", JsonValue::Array(out)))
        },
        AttachmentValue::Redacted { kind, reason } => {
            let mut inner: Vec<(String, JsonValue)> = Vec::new();
            push_field(&mut inner, "kind", json_opt_str(kind));
            push_field(&mut inner, "reason", json_opt_str(reason));
            proof {
                assert(json_fields_model(inner@) =~= seq![("kind"@, opt_json_str(opt_str_model(*kind))), ("reason"@, opt_json_str(opt_str_model(*reason)))]);
            }
            Some(kind_value_json("redacted", JsonValue::Object(inner)))
        },
    }
}

proof fn lemma_values_ok_all(items: Seq<ValueModel>, i: int)
    requires
        0 <= i < items.len(),
        !value_json_ok(items[i]),
    ensures
        !values_json_ok(items),
    decreases items.len(),
{
    if i < items.len() - 1 {
        lemma_values_ok_all(items.drop_last(), i);
    }
}

proof fn lemma_entries_ok_all(entries: Seq<(Seq<char>, ValueModel)>, i: int)
    requires
        0 <= i < entries.len(),
        !value_json_ok(entries[i].1),
    ensures
        !entries_json_ok(entries),
    decreases entries.len(),
{
    if i < entries.len() - 1 {
        lemma_entries_ok_all(entries.drop_last(), i);
    }
}

/// The JSON of an error code: a number, or a string.
pub open spec fn code_json(c: ErrorCodeView) -> JsonModel {
    match c {
        ErrorCodeView::Integer(i) => JsonModel::Number(dec_int(i)),
        ErrorCodeView::Text(s) => JsonModel::Str(s),
    }
}

pub open spec fn opt_bool_json(b: Option<bool>) -> JsonModel {
    match b { Some(v) => JsonModel::Bool(v), None => JsonModel::Null }
}

pub open spec fn opt_u64_json(n: Option<u64>) -> JsonModel {
    match n { Some(v) => JsonModel::Number(dec_nat(v as nat)), None => JsonModel::Null }
}

pub open spec fn opt_u32_json(n: Option<u32>) -> JsonModel {
    match n { Some(v) => JsonModel::Number(dec_nat(v as nat)), None => JsonModel::Null }
}

/// `{"message", "type"}` of the report's own error.
pub open spec fn error_json(message: Seq<char>, type_label: Seq<char>) -> JsonModel {
    JsonModel::Object(seq![("message"@, JsonModel::Str(message)), ("type"@, JsonModel::Str(type_label))])
}

/// The metadata object: every field, `null` where unset.
pub open spec fn metadata_json(m: ReportMetadata) -> JsonModel {
    JsonModel::Object(seq![
        ("error_code"@, match m.error_code { Some(c) => code_json(c@), None => JsonModel::Null }),
        ("severity"@, match m.severity { Some(s) => JsonModel::Str(severity_label(s)), None => JsonModel::Null }),
        ("category"@, opt_json_str(opt_str_model(m.category))),
        ("retryable"@, opt_bool_json(m.retryable)),
    ])
}

pub open spec fn frame_json(f: StackFrame) -> JsonModel {
    JsonModel::Object(seq![
        ("symbol"@, opt_json_str(opt_str_model(f.symbol))),
        ("module_path"@, opt_json_str(opt_str_model(f.module))),
        ("file"@, opt_json_str(opt_str_model(f.file))),
        ("line"@, opt_u32_json(f.line)),
        ("column"@, opt_u32_json(f.column)),
    ])
}

pub open spec fn format_label(f: StackTraceFormat) -> Seq<char> {
    match f { StackTraceFormat::Native => "native"@, StackTraceFormat::Raw => "raw"@ }
}

pub open spec fn stack_trace_json(st: StackTrace) -> JsonModel {
    JsonModel::Object(seq![
        ("format"@, JsonModel::Str(format_label(st.format))),
        ("frames"@, JsonModel::Array(st.frames@.map_values(|f: StackFrame| frame_json(f)))),
        ("raw"@, opt_json_str(opt_str_model(st.raw))),
    ])
}

/// How many display causes a walk with depth limit `max_depth` visits.
pub open spec fn visible_causes(n: nat, max_depth: usize) -> nat {
    if n <= max_depth { n } else { max_depth as nat }
}

pub open spec fn display_causes_json(c: DisplayCauseChain, max_depth: usize) -> JsonModel {
    JsonModel::Object(seq![
        ("items"@, JsonModel::Array(c.items@.take(visible_causes(c.items@.len(), max_depth) as int).map_values(|s: String| JsonModel::Str(s@)))),
        ("truncated"@, JsonModel::Bool(c.truncated || c.items@.len() > max_depth)),
        ("cycle_detected"@, JsonModel::Bool(c.cycle_detected)),
    ])
}

fn opt_u32_to_json(n: Option<u32>) -> (r: JsonValue)
    ensures
        r@ == opt_u32_json(n),
{
    match n {
        Some(v) => JsonValue::Number(u64_to_string(v as u64)),
        None => JsonValue::Null,
    }
}

fn opt_u64_to_json(n: Option<u64>) -> (r: JsonValue)
    ensures
        r@ == opt_u64_json(n),
{
    match n {
        Some(v) => JsonValue::Number(u64_to_string(v)),
        None => JsonValue::Null,
    }
}

fn opt_bool_to_json(b: Option<bool>) -> (r: JsonValue)
    ensures
        r@ == opt_bool_json(b),
{
    match b {
        Some(v) => JsonValue::Bool(v),
        None => JsonValue::Null,
    }
}

fn opt_string_json(o: &Option<String>) -> (r: JsonValue)
    ensures
        r@ == opt_json_str(opt_str_model(*o)),
{
    json_opt_str(o)
}

fn error_code_to_json(c: &ErrorCode) -> (r: JsonValue)
    ensures
        r@ == code_json(c@),
{
    match c {
        ErrorCode::Integer(i) => JsonValue::Number(i64_to_string(*i)),
        ErrorCode::String(s) => JsonValue::Str(s.clone()),
    }
}

/// The error object of a report.
pub fn error_to_json(message: &String, type_label: &String) -> (r: JsonValue)
    ensures
        r@ == error_json(message@, type_label@),
{
    let mut f: Vec<(String, JsonValue)> = Vec::new();
    push_field(&mut f, "message", JsonValue::Str(message.clone()));
    push_field(&mut f, "type", JsonValue::Str(type_label.clone()));
    proof {
        assert(json_fields_model(f@) =~= seq![("message"@, JsonModel::Str(message@)), ("type"@, JsonModel::Str(type_label@))]);
    }
    JsonValue::Object(f)
}

/// The metadata object of a report.
pub fn metadata_to_json(m: &ReportMetadata) -> (r: JsonValue)
    ensures
        r@ == metadata_json(*m),
{
    let mut f: Vec<(String, JsonValue)> = Vec::new();
    let code = match &m.error_code {
        Some(c) => error_code_to_json(c),
        None => JsonValue::Null,
    };
    push_field(&mut f, "error_code", code);
    let sev = match m.severity {
        Some(s) => json_str(s.label()),
        None => JsonValue::Null,
    };
    push_field(&mut f, "severity", sev);
    push_field(&mut f, "category", opt_string_json(&m.category));
    push_field(&mut f, "retryable", opt_bool_to_json(m.retryable));
    proof {
        assert(json_fields_model(f@) =~= match metadata_json(*m) { JsonModel::Object(x) => x, _ => Seq::empty() });
    }
    JsonValue::Object(f)
}

fn frame_to_json(fr: &StackFrame) -> (r: JsonValue)
    ensures
        r@ == frame_json(*fr),
{
    let mut f: Vec<(String, JsonValue)> = Vec::new();
    push_field(&mut f, "symbol", opt_string_json(&fr.symbol));
    push_field(&mut f, "module_path", opt_string_json(&fr.module));
    push_field(&mut f, "file", opt_string_json(&fr.file));
    push_field(&mut f, "line", opt_u32_to_json(fr.line));
    push_field(&mut f, "column", opt_u32_to_json(fr.column));
    proof {
        assert(json_fields_model(f@) =~= match frame_json(*fr) { JsonModel::Object(x) => x, _ => Seq::empty() });
    }
    JsonValue::Object(f)
}

/// The stack-trace object.
pub fn stack_trace_to_json(st: &StackTrace) -> (r: JsonValue)
    ensures
        r@ == stack_trace_json(*st),
{
    let mut frames: Vec<JsonValue> = Vec::new();
    let mut i: usize = 0;
    while i < st.frames.len()
        invariant
            i <= st.frames@.len(),
            json_items_model(frames@) == st.frames@.take(i as int).map_values(|f: StackFrame| frame_json(f)),
        decreases st.frames@.len() - i,
    {
        push_item(&mut frames, frame_to_json(&st.frames[i]));
        proof {
            assert(st.frames@.take(i as int + 1).map_values(|f: StackFrame| frame_json(f))
                =~= st.frames@.take(i as int).map_values(|f: StackFrame| frame_json(f)).push(frame_json(st.frames@[i as int])));
        }
        i = i + 1;
    }
    proof {
        assert(st.frames@.take(st.frames@.len() as int) =~= st.frames@);
    }
    let label = match st.format {
        StackTraceFormat::Native => "native",
        StackTraceFormat::Raw => "raw",
    };
    let mut f: Vec<(String, JsonValue)> = Vec::new();
    push_field(&mut f, "format", json_str(label));
    push_field(&mut f, "frames", JsonValue::Array(frames));
    push_field(&mut f, "raw", opt_string_json(&st.raw));
    proof {
        assert(json_fields_model(f@) =~= match stack_trace_json(*st) { JsonModel::Object(x) => x, _ => Seq::empty() });
    }
    JsonValue::Object(f)
}

/// The display-cause object: the causes a walk with depth limit `max_depth`
/// visits, and the flags.
pub fn display_causes_to_json(c: &DisplayCauseChain, max_depth: usize) -> (r: JsonValue)
    ensures
        r@ == display_causes_json(*c, max_depth),
{
    let n = if c.items.len() <= max_depth { c.items.len() } else { max_depth };
    let mut items: Vec<JsonValue> = Vec::new();
    let mut i: usize = 0;
    while i < n
        invariant
            n == visible_causes(c.items@.len(), max_depth),
            n <= c.items@.len(),
            i <= n,
            json_items_model(items@) == c.items@.take(i as int).map_values(|s: String| JsonModel::Str(s@)),
        decreases n - i,
    {
        push_item(&mut items, JsonValue::Str(c.items[i].clone()));
        proof {
            assert(c.items@.take(i as int + 1).map_values(|s: String| JsonModel::Str(s@))
                =~= c.items@.take(i as int).map_values(|s: String| JsonModel::Str(s@)).push(JsonModel::Str(c.items@[i as int]@)));
        }
        i = i + 1;
    }
    let mut f: Vec<(String, JsonValue)> = Vec::new();
    push_field(&mut f, "items", JsonValue::Array(items));
    push_field(&mut f, "truncated", JsonValue::Bool(c.truncated || c.items.len() > max_depth));
    push_field(&mut f, "cycle_detected", JsonValue::Bool(c.cycle_detected));
    proof {
        assert(json_fields_model(f@) =~= match display_causes_json(*c, max_depth) { JsonModel::Object(x) => x, _ => Seq::empty() });
    }
    JsonValue::Object(f)
}

/// The JSON of source node `id` at `depth`: its message, its shown type name
/// and, when it has sources within the depth limit, a nested `source` chain.
pub open spec fn src_node_json(c: SourceErrorChain, id: usize, depth: int, max: int) -> JsonModel
    decreases max - depth, 0int,
{
    let n = c.nodes@[id as int];
    let base = seq![
        ("message"@, JsonModel::Str(n.message@)),
        ("type"@, opt_json_str(display_type_name(opt_view(n.type_label), true))),
    ];
    if n.source_roots@.len() > 0 && depth + 1 < max {
        JsonModel::Object(base.push(("source"@, JsonModel::Object(seq![
            ("items"@, JsonModel::Array(src_items_json(c, n.source_roots@, depth + 1, max))),
            ("truncated"@, JsonModel::Bool(false)),
            ("cycle_detected"@, JsonModel::Bool(false)),
        ]))))
    } else {
        JsonModel::Object(base)
    }
}

/// The JSON of the nodes `ids` at `depth`; ids naming no node are skipped.
pub open spec fn src_items_json(c: SourceErrorChain, ids: Seq<usize>, depth: int, max: int) -> Seq<JsonModel>
    decreases max - depth, 1int, ids.len(),
{
    if ids.len() == 0 {
        Seq::empty()
    } else {
        let rest = src_items_json(c, ids.drop_last(), depth, max);
        if ids.last() < c.nodes@.len() { rest.push(src_node_json(c, ids.last(), depth, max)) } else { rest }
    }
}

/// The JSON of a source-error chain, nested to the depth limit, with the
/// flags it shows under that limit.
pub open spec fn source_errors_json(c: SourceErrorChain, max: usize, detect: bool) -> JsonModel {
    JsonModel::Object(seq![
        ("items"@, JsonModel::Array(if 0 < max { src_items_json(c, c.roots@, 0, max as int) } else { Seq::empty() })),
        ("truncated"@, JsonModel::Bool(view_truncated(c, max as int))),
        ("cycle_detected"@, JsonModel::Bool(c.cycle_detected && detect)),
    ])
}

fn src_node_to_json(c: &SourceErrorChain, id: usize, depth: usize, max: usize) -> (r: JsonValue)
    requires
        id < c.nodes@.len(),
        depth < max,
    ensures
        r@ == src_node_json(*c, id, depth as int, max as int),
    decreases max - depth, 0int, 0int,
{
    let n = &c.nodes[id];
    let mut f: Vec<(String, JsonValue)> = Vec::new();
    push_field(&mut f, "message", JsonValue::Str(n.message.clone()));
    push_field(&mut f, "type", json_opt_str(&n.type_name_for_display(true)));
    if n.source_roots.len() > 0 && depth + 1 < max {
        let items = src_items_to_json(c, &n.source_roots, depth + 1, max);
        let mut inner: Vec<(String, JsonValue)> = Vec::new();
        push_field(&mut inner, "items", JsonValue::Array(items));
        push_field(&mut inner, "truncated", JsonValue::Bool(false));
        push_field(&mut inner, "cycle_detected", JsonValue::Bool(false));
        proof {
            assert(json_fields_model(inner@) =~= seq![
                ("items"@, JsonModel::Array(src_items_json(*c, n.source_roots@, depth + 1, max as int))),
                ("truncated"@, JsonModel::Bool(false)),
                ("cycle_detected"@, JsonModel::Bool(false)),
            ]);
        }
        let ghost before = json_fields_model(f@);
        push_field(&mut f, "source", JsonValue::Object(inner));
        proof {
            assert(before =~= seq![
                ("message"@, JsonModel::Str(n.message@)),
                ("type"@, opt_json_str(display_type_name(opt_view(n.type_label), true))),
            ]);
            assert(json_fields_model(f@) =~= match src_node_json(*c, id, depth as int, max as int) { JsonModel::Object(x) => x, _ => Seq::empty() });
        }
        JsonValue::Object(f)
    } else {
        proof {
            assert(json_fields_model(f@) =~= match src_node_json(*c, id, depth as int, max as int) { JsonModel::Object(x) => x, _ => Seq::empty() });
        }
        JsonValue::Object(f)
    }
}

fn src_items_to_json(c: &SourceErrorChain, ids: &Vec<usize>, depth: usize, max: usize) -> (r: Vec<JsonValue>)
    requires
        depth < max,
    ensures
        json_items_model(r@) == src_items_json(*c, ids@, depth as int, max as int),
    decreases max - depth, 1int, 0int,
{
    let mut out: Vec<JsonValue> = Vec::new();
    let mut i: usize = 0;
    proof {
        assert(ids@.take(0) =~= Seq::<usize>::empty());
    }
    while i < ids.len()
        invariant
            i <= ids@.len(),
            depth < max,
            json_items_model(out@) == src_items_json(*c, ids@.take(i as int), depth as int, max as int),
        decreases ids@.len() - i,
    {
        let id = ids[i];
        proof {
            assert(ids@.take(i as int + 1).drop_last() =~= ids@.take(i as int));
        }
        if id < c.nodes.len() {
            let j = src_node_to_json(c, id, depth, max);
            push_item(&mut out, j);
        }
        i = i + 1;
    }
    proof {
        assert(ids@.take(ids@.len() as int) =~= ids@);
    }
    out
}

/// The JSON of a source-error chain.
pub fn source_errors_to_json(c: &SourceErrorChain, max: usize, detect: bool) -> (r: JsonValue)
    ensures
        r@ == source_errors_json(*c, max, detect),
{
    let items = if 0 < max { src_items_to_json(c, &c.roots, 0, max) } else { Vec::new() };
    let flags = c.view_flags(CauseCollectOptions { max_depth: max, detect_cycle: detect });
    let mut f: Vec<(String, JsonValue)> = Vec::new();
    push_field(&mut f, "items", JsonValue::Array(items));
    push_field(&mut f, "truncated", JsonValue::Bool(flags.truncated));
    push_field(&mut f, "cycle_detected", JsonValue::Bool(flags.cycle_detected));
    proof {
        if !(0 < max) {
            assert(json_items_model(Seq::<JsonValue>::empty()) =~= Seq::<JsonModel>::empty());
        }
        assert(json_fields_model(f@) =~= match source_errors_json(*c, max, detect) { JsonModel::Object(x) => x, _ => Seq::empty() });
    }
    JsonValue::Object(f)
}

pub open spec fn hex_id_json<const N: usize>(o: Option<crate::trace::HexId<N>>) -> JsonModel {
    match o { Some(id) => JsonModel::Str(id@), None => JsonModel::Null }
}

/// The trace context object: every field, `null` where unset.
pub open spec fn trace_context_json(c: TraceContext) -> JsonModel {
    JsonModel::Object(seq![
        ("trace_id"@, hex_id_json(c.trace_id)),
        ("span_id"@, hex_id_json(c.span_id)),
        ("parent_span_id"@, hex_id_json(c.parent_span_id)),
        ("sampled"@, opt_bool_json(c.sampled)),
        ("trace_state"@, match c.trace_state { Some(t) => JsonModel::Str(t.value@), None => JsonModel::Null }),
        ("flags"@, match c.flags { Some(f) => JsonModel::Number(dec_nat(f.bits as nat)), None => JsonModel::Null }),
    ])
}

pub open spec fn attribute_json(a: TraceEventAttribute) -> JsonModel {
    JsonModel::Object(seq![("key"@, JsonModel::Str(a.key@)), ("value"@, value_json(a.value@))])
}

pub open spec fn event_json(e: TraceEvent) -> JsonModel {
    JsonModel::Object(seq![
        ("name"@, JsonModel::Str(e.name@)),
        ("level"@, match e.level { Some(l) => JsonModel::Str(trace_level_label(l)), None => JsonModel::Null }),
        ("timestamp_unix_nano"@, opt_u64_json(e.timestamp_unix_nano)),
        ("attributes"@, JsonModel::Array(e.attributes@.map_values(|a: TraceEventAttribute| attribute_json(a)))),
    ])
}

pub open spec fn event_json_ok(e: TraceEvent) -> bool {
    forall|i: int| 0 <= i < e.attributes@.len() ==> value_json_ok(#[trigger] e.attributes@[i].value@)
}

/// The trace object: its context and its events.
pub open spec fn trace_json(t: ReportTrace) -> JsonModel {
    JsonModel::Object(seq![
        ("context"@, trace_context_json(crate::trace::trace_context_or_empty(t))),
        ("events"@, JsonModel::Array(t.events@.map_values(|e: TraceEvent| event_json(e)))),
    ])
}

pub open spec fn trace_json_ok(t: ReportTrace) -> bool {
    forall|i: int| 0 <= i < t.events@.len() ==> event_json_ok(#[trigger] t.events@[i])
}

fn hex_id_to_json<const N: usize>(o: &Option<crate::trace::HexId<N>>) -> (r: JsonValue)
    ensures
        r@ == hex_id_json(*o),
{
    match o {
        Some(id) => json_str(id.as_str()),
        None => JsonValue::Null,
    }
}

fn trace_context_to_json(c: &TraceContext) -> (r: JsonValue)
    ensures
        r@ == trace_context_json(*c),
{
    let mut f: Vec<(String, JsonValue)> = Vec::new();
    push_field(&mut f, "trace_id", hex_id_to_json(&c.trace_id));
    push_field(&mut f, "span_id", hex_id_to_json(&c.span_id));
    push_field(&mut f, "parent_span_id", hex_id_to_json(&c.parent_span_id));
    push_field(&mut f, "sampled", opt_bool_to_json(c.sampled));
    let ts = match &c.trace_state {
        Some(t) => JsonValue::Str(t.value.clone()),
        None => JsonValue::Null,
    };
    push_field(&mut f, "trace_state", ts);
    let fl = match c.flags {
        Some(x) => JsonValue::Number(u64_to_string(x.bits as u64)),
        None => JsonValue::Null,
    };
    push_field(&mut f, "flags", fl);
    proof {
        assert(json_fields_model(f@) =~= match trace_context_json(*c) { JsonModel::Object(x) => x, _ => Seq::empty() });
    }
    JsonValue::Object(f)
}

fn event_to_json(e: &TraceEvent) -> (r: Option<JsonValue>)
    ensures
        r is Some <==> event_json_ok(*e),
        r matches Some(j) ==> j@ == event_json(*e),
{
    let mut attrs: Vec<JsonValue> = Vec::new();
    let mut i: usize = 0;
    while i < e.attributes.len()
        invariant
            i <= e.attributes@.len(),
            json_items_model(attrs@) == e.attributes@.take(i as int).map_values(|a: TraceEventAttribute| attribute_json(a)),
            forall|j: int| 0 <= j < i ==> value_json_ok(#[trigger] e.attributes@[j].value@),
        decreases e.attributes@.len() - i,
    {
        let a = &e.attributes[i];
        let v = match value_to_json(&a.value) {
            Some(v) => v,
            None => return None,
        };
        let mut kv: Vec<(String, JsonValue)> = Vec::new();
        push_field(&mut kv, "key", JsonValue::Str(a.key.clone()));
        push_field(&mut kv, "value", v);
        proof {
            assert(json_fields_model(kv@) =~= match attribute_json(*a) { JsonModel::Object(x) => x, _ => Seq::empty() });
        }
        push_item(&mut attrs, JsonValue::Object(kv));
        proof {
            assert(e.attributes@.take(i as int + 1).map_values(|a: TraceEventAttribute| attribute_json(a))
                =~= e.attributes@.take(i as int).map_values(|a: TraceEventAttribute| attribute_json(a)).push(attribute_json(e.attributes@[i as int])));
        }
        i = i + 1;
    }
    proof {
        assert(e.attributes@.take(e.attributes@.len() as int) =~= e.attributes@);
    }
    let mut f: Vec<(String, JsonValue)> = Vec::new();
    push_field(&mut f, "name", JsonValue::Str(e.name.clone()));
    let level = match e.level {
        Some(l) => json_str(l.label()),
        None => JsonValue::Null,
    };
    push_field(&mut f, "level", level);
    push_field(&mut f, "timestamp_unix_nano", opt_u64_to_json(e.timestamp_unix_nano));
    push_field(&mut f, "attributes", JsonValue::Array(attrs));
    proof {
        assert(json_fields_model(f@) =~= match event_json(*e) { JsonModel::Object(x) => x, _ => Seq::empty() });
    }
    Some(JsonValue::Object(f))
}

/// The trace object, or `None` when an attribute holds a non-finite float.
pub fn trace_to_json(t: &ReportTrace) -> (r: Option<JsonValue>)
    ensures
        r is Some <==> trace_json_ok(*t),
        r matches Some(j) ==> j@ == trace_json(*t),
{
    let ctx = match &t.context {
        Some(c) => trace_context_to_json(c),
        None => trace_context_to_json(&TraceContext::new()),
    };
    let mut events: Vec<JsonValue> = Vec::new();
    let mut i: usize = 0;
    while i < t.events.len()
        invariant
            i <= t.events@.len(),
            json_items_model(events@) == t.events@.take(i as int).map_values(|e: TraceEvent| event_json(e)),
            forall|j: int| 0 <= j < i ==> event_json_ok(#[trigger] t.events@[j]),
        decreases t.events@.len() - i,
    {
        let ev = match event_to_json(&t.events[i]) {
            Some(j) => j,
            None => return None,
        };
        push_item(&mut events, ev);
        proof {
            assert(t.events@.take(i as int + 1).map_values(|e: TraceEvent| event_json(e))
                =~= t.events@.take(i as int).map_values(|e: TraceEvent| event_json(e)).push(event_json(t.events@[i as int])));
        }
        i = i + 1;
    }
    proof {
        assert(t.events@.take(t.events@.len() as int) =~= t.events@);
    }
    let mut f: Vec<(String, JsonValue)> = Vec::new();
    push_field(&mut f, "context", ctx);
    push_field(&mut f, "events", JsonValue::Array(events));
    proof {
        assert(json_fields_model(f@) =~= match trace_json(*t) { JsonModel::Object(x) => x, _ => Seq::empty() });
    }
    Some(JsonValue::Object(f))
}

pub open spec fn context_entry_json(e: (String, ContextValue)) -> JsonModel {
    JsonModel::Object(seq![("key"@, JsonModel::Str(e.0@)), ("value"@, value_json(e.1@))])
}

/// The context array: one `{"key", "value"}` object per entry, in key order.
pub open spec fn context_json(entries: Seq<(String, ContextValue)>) -> JsonModel {
    JsonModel::Array(entries.map_values(|e: (String, ContextValue)| context_entry_json(e)))
}

pub open spec fn context_json_ok(entries: Seq<(String, ContextValue)>) -> bool {
    forall|i: int| 0 <= i < entries.len() ==> value_json_ok(#[trigger] entries[i].1@)
}

pub open spec fn attachment_json(a: Attachment) -> JsonModel {
    match a {
        Attachment::Note { message } => JsonModel::Object(seq![
            ("kind"@, JsonModel::Str("note"@)), ("message"@, JsonModel::Str(message@))]),
        Attachment::Payload { name, value, media_type } => JsonModel::Object(seq![
            ("kind"@, JsonModel::Str("payload"@)),
            ("name"@, JsonModel::Str(name@)),
            ("value"@, value_json(value@)),
            ("media_type"@, opt_json_str(opt_str_model(media_type))),
        ]),
    }
}

pub open spec fn attachment_json_ok(a: Attachment) -> bool {
    match a {
        Attachment::Note { .. } => true,
        Attachment::Payload { value, .. } => value_json_ok(value@),
    }
}

/// The attachments array: notes and payloads in the order they were added.
pub open spec fn attachments_json(atts: Seq<Attachment>) -> JsonModel {
    JsonModel::Array(atts.map_values(|a: Attachment| attachment_json(a)))
}

pub open spec fn attachments_json_ok(atts: Seq<Attachment>) -> bool {
    forall|i: int| 0 <= i < atts.len() ==> attachment_json_ok(#[trigger] atts[i])
}

/// The context array, or `None` when a value holds a non-finite float.
pub fn context_to_json(entries: &Vec<(String, ContextValue)>) -> (r: Option<JsonValue>)
    ensures
        r is Some <==> context_json_ok(entries@),
        r matches Some(j) ==> j@ == context_json(entries@),
{
    let mut items: Vec<JsonValue> = Vec::new();
    let mut i: usize = 0;
    while i < entries.len()
        invariant
            i <= entries@.len(),
            json_items_model(items@) == entries@.take(i as int).map_values(|e: (String, ContextValue)| context_entry_json(e)),
            forall|j: int| 0 <= j < i ==> value_json_ok(#[trigger] entries@[j].1@),
        decreases entries@.len() - i,
    {
        let v = match value_to_json(&entries[i].1) {
            Some(v) => v,
            None => return None,
        };
        let mut kv: Vec<(String, JsonValue)> = Vec::new();
        push_field(&mut kv, "key", JsonValue::Str(entries[i].0.clone()));
        push_field(&mut kv, "value", v);
        proof {
            assert(json_fields_model(kv@) =~= match context_entry_json(entries@[i as int]) { JsonModel::Object(x) => x, _ => Seq::empty() });
        }
        push_item(&mut items, JsonValue::Object(kv));
        proof {
            assert(entries@.take(i as int + 1).map_values(|e: (String, ContextValue)| context_entry_json(e))
                =~= entries@.take(i as int).map_values(|e: (String, ContextValue)| context_entry_json(e)).push(context_entry_json(entries@[i as int])));
        }
        i = i + 1;
    }
    proof {
        assert(entries@.take(entries@.len() as int) =~= entries@);
    }
    Some(JsonValue::Array(items))
}

fn attachment_to_json(a: &Attachment) -> (r: Option<JsonValue>)
    ensures
        r is Some <==> attachment_json_ok(*a),
        r matches Some(j) ==> j@ == attachment_json(*a),
{
    let mut f: Vec<(String, JsonValue)> = Vec::new();
    match a {
        Attachment::Note { message } => {
            push_field(&mut f, "kind", json_str("note"));
            push_field(&mut f, "message", JsonValue::Str(message.clone()));
        },
        Attachment::Payload { name, value, media_type } => {
            let v = match value_to_json(value) {
                Some(v) => v,
                None => return None,
            };
            push_field(&mut f, "kind", json_str("payload"));
            push_field(&mut f, "name", JsonValue::Str(name.clone()));
            push_field(&mut f, "value", v);
            push_field(&mut f, "media_type", json_opt_str(media_type));
        },
    }
    proof {
        assert(json_fields_model(f@) =~= match attachment_json(*a) { JsonModel::Object(x) => x, _ => Seq::empty() });
    }
    Some(JsonValue::Object(f))
}

/// The attachments array, or `None` when a payload holds a non-finite float.
pub fn attachments_to_json(atts: &Vec<Attachment>) -> (r: Option<JsonValue>)
    ensures
        r is Some <==> attachments_json_ok(atts@),
        r matches Some(j) ==> j@ == attachments_json(atts@),
{
    let mut items: Vec<JsonValue> = Vec::new();
    let mut i: usize = 0;
    while i < atts.len()
        invariant
            i <= atts@.len(),
            json_items_model(items@) == atts@.take(i as int).map_values(|a: Attachment| attachment_json(a)),
            forall|j: int| 0 <= j < i ==> attachment_json_ok(#[trigger] atts@[j]),
        decreases atts@.len() - i,
    {
        let j = match attachment_to_json(&atts[i]) {
            Some(j) => j,
            None => return None,
        };
        push_item(&mut items, j);
        proof {
            assert(atts@.take(i as int + 1).map_values(|a: Attachment| attachment_json(a))
                =~= atts@.take(i as int).map_values(|a: Attachment| attachment_json(a)).push(attachment_json(atts@[i as int])));
        }
        i = i + 1;
    }
    proof {
        assert(atts@.take(atts@.len() as int) =~= atts@);
    }
    Some(JsonValue::Array(items))
}

/// Whether the report has anything for the diagnostic bag.
pub open spec fn has_diag_bag<E>(r: Report<E>) -> bool {
    r.stack_trace is Some || r.display_causes is Some || r.origin_source_errors is Some || r.diagnostic_source_errors is Some
}

/// The fields of the diagnostic bag the options show.
pub open spec fn diag_bag_fields<E>(r: Report<E>, o: ReportRenderOptions) -> Seq<(Seq<char>, JsonModel)> {
    (if o.show_stack_trace_section && (o.show_empty_sections || r.stack_trace is Some) {
        seq![("stack_trace"@, match r.stack_trace { Some(st) => stack_trace_json(st), None => JsonModel::Null })]
    } else { Seq::empty() })
    + (if o.show_cause_chains_section && (o.show_empty_sections || r.display_causes is Some) {
        seq![("display_causes"@, match r.display_causes { Some(c) => display_causes_json(c, o.max_source_depth), None => JsonModel::Null })]
    } else { Seq::empty() })
    + (if o.show_cause_chains_section && (o.show_empty_sections || r.origin_source_errors is Some) {
        seq![("source_errors"@, match r.origin_source_errors { Some(c) => source_errors_json(c, o.max_source_depth, o.detect_source_cycle), None => JsonModel::Null })]
    } else { Seq::empty() })
}

pub open spec fn shows_trace<E>(r: Report<E>, o: ReportRenderOptions) -> bool {
    o.show_trace_section && (o.show_empty_sections || !trace_is_empty(r.trace))
}

pub open spec fn shows_context<E>(r: Report<E>, o: ReportRenderOptions) -> bool {
    o.show_context_section && (o.show_empty_sections || r.context.entries().len() > 0)
}

pub open spec fn shows_attachments<E>(r: Report<E>, o: ReportRenderOptions) -> bool {
    o.show_attachments_section && (o.show_empty_sections || r.attachments@.len() > 0)
}

/// The fields of the JSON document, in order.
pub open spec fn report_json_fields<E>(r: Report<E>, o: ReportRenderOptions) -> Seq<(Seq<char>, JsonModel)> {
    seq![("schema_version"@, JsonModel::Str("v0.1.0"@)), ("error"@, error_json(r.message@, r.type_label@))]
    + (if o.show_governance_section && (o.show_empty_sections || has_metadata(r.metadata)) {
        seq![("metadata"@, metadata_json(r.metadata))] } else { Seq::empty() })
    + (if (o.show_stack_trace_section || o.show_cause_chains_section) && (o.show_empty_sections || has_diag_bag(r)) {
        seq![("diagnostic_bag"@, JsonModel::Object(diag_bag_fields(r, o)))] } else { Seq::empty() })
    + (if shows_trace(r, o) {
        seq![("trace"@, if trace_is_empty(r.trace) { JsonModel::Null } else { trace_json(r.trace) })] } else { Seq::empty() })
    + (if shows_context(r, o) { seq![("context"@, context_json(r.context.entries()))] } else { Seq::empty() })
    + (if shows_attachments(r, o) { seq![("attachments"@, attachments_json(r.attachments@))] } else { Seq::empty() })
}

/// Whether every float the document would hold is finite.
pub open spec fn report_json_ok<E>(r: Report<E>, o: ReportRenderOptions) -> bool {
    &&& (shows_trace(r, o) && !trace_is_empty(r.trace)) ==> trace_json_ok(r.trace)
    &&& shows_context(r, o) ==> context_json_ok(r.context.entries())
    &&& shows_attachments(r, o) ==> attachments_json_ok(r.attachments@)
}

fn diag_bag_to_json<E>(r: &Report<E>, o: ReportRenderOptions) -> (j: JsonValue)
    ensures
        j@ == JsonModel::Object(diag_bag_fields(*r, o)),
{
    let mut f: Vec<(String, JsonValue)> = Vec::new();
    let ghost mut expect: Seq<(Seq<char>, JsonModel)> = Seq::empty();
    if o.show_stack_trace_section && (o.show_empty_sections || r.stack_trace.is_some()) {
        let v = match &r.stack_trace { Some(st) => stack_trace_to_json(st), None => JsonValue::Null };
        proof { expect = expect.push(("stack_trace"@, v@)); }
        push_field(&mut f, "stack_trace", v);
    }
    if o.show_cause_chains_section && (o.show_empty_sections || r.display_causes.is_some()) {
        let v = match &r.display_causes { Some(c) => display_causes_to_json(c, o.max_source_depth), None => JsonValue::Null };
        proof { expect = expect.push(("display_causes"@, v@)); }
        push_field(&mut f, "display_causes", v);
    }
    if o.show_cause_chains_section && (o.show_empty_sections || r.origin_source_errors.is_some()) {
        let v = match &r.origin_source_errors { Some(c) => source_errors_to_json(c, o.max_source_depth, o.detect_source_cycle), None => JsonValue::Null };
        proof { expect = expect.push(("source_errors"@, v@)); }
        push_field(&mut f, "source_errors", v);
    }
    proof {
        assert(json_fields_model(f@) =~= expect);
        assert(expect =~= diag_bag_fields(*r, o));
    }
    JsonValue::Object(f)
}

/// The JSON document of a report, or `None` when a value it would hold is a
/// non-finite float.
pub fn report_to_json<E>(r: &Report<E>, o: ReportRenderOptions) -> (j: Option<JsonValue>)
    ensures
        j is Some <==> report_json_ok(*r, o),
        j matches Some(v) ==> v@ == JsonModel::Object(report_json_fields(*r, o)),
{
    let mut f: Vec<(String, JsonValue)> = Vec::new();
    push_field(&mut f, "schema_version", json_str(crate::render::REPORT_JSON_SCHEMA_VERSION));
    push_field(&mut f, "error", error_to_json(&r.message, &r.type_label));
    let ghost mut expect: Seq<(Seq<char>, JsonModel)> = seq![("schema_version"@, JsonModel::Str("v0.1.0"@)), ("error"@, error_json(r.message@, r.type_label@))];
    proof {
        reveal_strlit("v0.1.0");
        assert(json_fields_model(f@) =~= expect);
    }
    let has_meta = r.metadata.error_code.is_some() || r.metadata.severity.is_some()
        || r.metadata.category.is_some() || r.metadata.retryable.is_some();
    if o.show_governance_section && (o.show_empty_sections || has_meta) {
        let v = metadata_to_json(&r.metadata);
        proof { expect = expect.push(("metadata"@, v@)); }
        push_field(&mut f, "metadata", v);
    }
    let has_bag = r.stack_trace.is_some() || r.display_causes.is_some() || r.origin_source_errors.is_some()
        || r.diagnostic_source_errors.is_some();
    if (o.show_stack_trace_section || o.show_cause_chains_section) && (o.show_empty_sections || has_bag) {
        let v = diag_bag_to_json(r, o);
        proof { expect = expect.push(("diagnostic_bag"@, v@)); }
        push_field(&mut f, "diagnostic_bag", v);
    }
    let trace_empty = r.trace.is_empty();
    if o.show_trace_section && (o.show_empty_sections || !trace_empty) {
        let v = if trace_empty { JsonValue::Null } else {
            match trace_to_json(&r.trace) { Some(v) => v, None => return None }
        };
        proof { expect = expect.push(("trace"@, v@)); }
        push_field(&mut f, "trace", v);
    }
    if o.show_context_section && (o.show_empty_sections || !r.context.is_empty()) {
        let v = match context_to_json(r.context.sorted_entries()) { Some(v) => v, None => return None };
        proof { expect = expect.push(("context"@, v@)); }
        push_field(&mut f, "context", v);
    }
    if o.show_attachments_section && (o.show_empty_sections || r.attachments.len() > 0) {
        let v = match attachments_to_json(&r.attachments) { Some(v) => v, None => return None };
        proof { expect = expect.push(("attachments"@, v@)); }
        push_field(&mut f, "attachments", v);
    }
    proof {
        assert(json_fields_model(f@) =~= expect);
        assert(expect =~= report_json_fields(*r, o));
    }
    Some(JsonValue::Object(f))
}

/// The JSON text of a report under `o`.
pub open spec fn report_json_text<E>(r: Report<E>, o: ReportRenderOptions) -> Seq<char> {
    json_text(JsonModel::Object(report_json_fields(r, o)), o.json_pretty, Seq::empty())
}

impl Json {
    /// Renders `report` as JSON; `None` when a value it would hold is a
    /// non-finite float, which JSON cannot express.
    pub fn render_text<E>(&self, report: &Report<E>) -> (r: Option<String>)
        ensures
            r is Some <==> report_json_ok(*report, self.options),
            r matches Some(s) ==> s@ == report_json_text(*report, self.options),
    {
        match report_to_json(report, self.options) {
            Some(v) => Some(to_json_string(&v, self.options.json_pretty)),
            None => None,
        }
    }
}

impl<E> ReportRenderer<E> for Json {
    fn render(&self, report: &Report<E>) -> (r: Option<String>)
        ensures
            r is Some <==> report_json_ok(*report, self.options),
            r matches Some(s) ==> s@ == report_json_text(*report, self.options),
    {
        self.render_text(report)
    }
}

} // verus!
