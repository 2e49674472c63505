//! Structured values of a report's parts, as handed to tracing fields:
//! objects whose keys come in sorted order, as a sorted map gives them.

use vstd::prelude::*;
use crate::attachment::{entries_model, items_model, opt_str_model, Attachment, AttachmentValue, ContextMap, ContextValue, ValueModel};
use crate::cause::CauseTraversalState;
use crate::report::{StackFrame, StackTrace, StackTraceFormat};
use crate::source_chain::{display_type_name, opt_view, SourceErrorChain, SourceErrorItem};
use crate::text::str_to_string;
use crate::trace::{trace_context_or_empty, trace_level_label, HexId, ReportTrace, TraceContext, TraceEvent, TraceEventAttribute};

verus! {

/// Text, or null when absent.
pub open spec fn text_or_null(o: Option<Seq<char>>) -> ValueModel {
    match o {
        Some(s) => ValueModel::Text(s),
        None => ValueModel::Null,
    }
}

/// The text of an identifier, when present.
pub open spec fn id_text<const N: usize>(o: Option<HexId<N>>) -> Option<Seq<char>> {
    match o {
        Some(id) => Some(id@),
        None => None,
    }
}

/// An unsigned number, or null when absent.
pub open spec fn unsigned_or_null(o: Option<int>) -> ValueModel {
    match o {
        Some(n) => ValueModel::Unsigned(n),
        None => ValueModel::Null,
    }
}

/// A boolean, or null when absent.
pub open spec fn bool_or_null(o: Option<bool>) -> ValueModel {
    match o {
        Some(b) => ValueModel::Bool(b),
        None => ValueModel::Null,
    }
}

/// The error: `{message, type}`.
pub open spec fn error_model(message: Seq<char>, type_label: Seq<char>) -> ValueModel {
    ValueModel::Object(seq![("message"@, ValueModel::Text(message)), ("type"@, ValueModel::Text(type_label))])
}

/// The trace context: every field, null where unset.
pub open spec fn trace_context_entries(c: TraceContext) -> Seq<(Seq<char>, ValueModel)> {
    seq![
        ("flags"@, unsigned_or_null(match c.flags { Some(f) => Some(f.bits as int), None => None })),
        ("parent_span_id"@, text_or_null(id_text(c.parent_span_id))),
        ("sampled"@, bool_or_null(c.sampled)),
        ("span_id"@, text_or_null(id_text(c.span_id))),
        ("trace_id"@, text_or_null(id_text(c.trace_id))),
        ("trace_state"@, text_or_null(match c.trace_state { Some(s) => Some(s.value@), None => None })),
    ]
}

pub open spec fn trace_context_model(c: TraceContext) -> ValueModel {
    ValueModel::Object(trace_context_entries(c))
}

/// A trace event attribute: `{key, value}`.
pub open spec fn attribute_model(a: TraceEventAttribute) -> ValueModel {
    ValueModel::Object(seq![("key"@, ValueModel::Text(a.key@)), ("value"@, a.value@)])
}

pub open spec fn attributes_model(attrs: Seq<TraceEventAttribute>) -> Seq<ValueModel> {
    Seq::new(attrs.len(), |j: int| attribute_model(attrs[j]))
}

/// A trace event: `{attributes, level, name, timestamp_unix_nano}`.
pub open spec fn event_entries(e: TraceEvent) -> Seq<(Seq<char>, ValueModel)> {
    seq![
        ("attributes"@, ValueModel::Array(attributes_model(e.attributes@))),
        ("level"@, text_or_null(match e.level { Some(l) => Some(trace_level_label(l)), None => None })),
        ("name"@, ValueModel::Text(e.name@)),
        ("timestamp_unix_nano"@, unsigned_or_null(match e.timestamp_unix_nano { Some(t) => Some(t as int), None => None })),
    ]
}

pub open spec fn event_model(e: TraceEvent) -> ValueModel {
    ValueModel::Object(event_entries(e))
}

pub open spec fn events_model(events: Seq<TraceEvent>) -> Seq<ValueModel> {
    Seq::new(events.len(), |j: int| event_model(events[j]))
}

/// The trace: `{context, error, events}`; a trace without context shows an
/// empty one.
pub open spec fn trace_entries(t: ReportTrace, message: Seq<char>, type_label: Seq<char>) -> Seq<(Seq<char>, ValueModel)> {
    seq![
        ("context"@, trace_context_model(trace_context_or_empty(t))),
        ("error"@, error_model(message, type_label)),
        ("events"@, ValueModel::Array(events_model(t.events@))),
    ]
}

pub open spec fn trace_model(t: ReportTrace, message: Seq<char>, type_label: Seq<char>) -> ValueModel {
    ValueModel::Object(trace_entries(t, message, type_label))
}

pub open spec fn opt_u32_int(o: Option<u32>) -> Option<int> {
    match o {
        Some(n) => Some(n as int),
        None => None,
    }
}

/// A stack frame: `{column, file, line, module_path, symbol}`.
pub open spec fn frame_entries(f: StackFrame) -> Seq<(Seq<char>, ValueModel)> {
    seq![
        ("column"@, unsigned_or_null(opt_u32_int(f.column))),
        ("file"@, text_or_null(opt_str_model(f.file))),
        ("line"@, unsigned_or_null(opt_u32_int(f.line))),
        ("module_path"@, text_or_null(opt_str_model(f.module))),
        ("symbol"@, text_or_null(opt_str_model(f.symbol))),
    ]
}

pub open spec fn frame_model(f: StackFrame) -> ValueModel {
    ValueModel::Object(frame_entries(f))
}

pub open spec fn frames_model(frames: Seq<StackFrame>) -> Seq<ValueModel> {
    Seq::new(frames.len(), |j: int| frame_model(frames[j]))
}

pub open spec fn format_label(f: StackTraceFormat) -> Seq<char> {
    match f {
        StackTraceFormat::Native => "native"@,
        StackTraceFormat::Raw => "raw"@,
    }
}

/// A stack trace: `{format, frames, raw}`.
pub open spec fn stack_trace_entries(s: StackTrace) -> Seq<(Seq<char>, ValueModel)> {
    seq![
        ("format"@, ValueModel::Text(format_label(s.format))),
        ("frames"@, ValueModel::Array(frames_model(s.frames@))),
        ("raw"@, text_or_null(opt_str_model(s.raw))),
    ]
}

pub open spec fn stack_trace_model(s: StackTrace) -> ValueModel {
    ValueModel::Object(stack_trace_entries(s))
}

pub open spec fn texts_model(items: Seq<String>) -> Seq<ValueModel> {
    Seq::new(items.len(), |j: int| ValueModel::Text(items[j]@))
}

/// Display causes: `{cycle_detected, items, truncated}`.
pub open spec fn display_causes_entries(items: Seq<String>, state: CauseTraversalState) -> Seq<(Seq<char>, ValueModel)> {
    seq![
        ("cycle_detected"@, ValueModel::Bool(state.cycle_detected)),
        ("items"@, ValueModel::Array(texts_model(items))),
        ("truncated"@, ValueModel::Bool(state.truncated)),
    ]
}

pub open spec fn display_causes_model(items: Seq<String>, state: CauseTraversalState) -> ValueModel {
    ValueModel::Object(display_causes_entries(items, state))
}

pub open spec fn message_item(m: Seq<char>) -> ValueModel {
    ValueModel::Object(seq![("message"@, ValueModel::Text(m))])
}

pub open spec fn message_items_model(items: Seq<String>) -> Seq<ValueModel> {
    Seq::new(items.len(), |j: int| message_item(items[j]@))
}

/// Source errors: `{cycle_detected, items: [{message}], truncated}`.
pub open spec fn source_errors_entries(messages: Seq<String>, state: CauseTraversalState) -> Seq<(Seq<char>, ValueModel)> {
    seq![
        ("cycle_detected"@, ValueModel::Bool(state.cycle_detected)),
        ("items"@, ValueModel::Array(message_items_model(messages))),
        ("truncated"@, ValueModel::Bool(state.truncated)),
    ]
}

pub open spec fn source_errors_model(messages: Seq<String>, state: CauseTraversalState) -> ValueModel {
    ValueModel::Object(source_errors_entries(messages, state))
}

/// A context entry: `{key, value}`.
pub open spec fn context_item_model(e: (String, ContextValue)) -> ValueModel {
    ValueModel::Object(seq![("key"@, ValueModel::Text(e.0@)), ("value"@, e.1@)])
}

pub open spec fn context_items_model(entries: Seq<(String, ContextValue)>) -> Seq<ValueModel> {
    Seq::new(entries.len(), |j: int| context_item_model(entries[j]))
}

/// An attachment: a note is `{kind: "note", message}`, a payload is
/// `{kind: "payload", media_type, name, value}`.
pub open spec fn attachment_item_model(a: Attachment) -> ValueModel {
    match a {
        Attachment::Note { message } => ValueModel::Object(seq![
            ("kind"@, ValueModel::Text("note"@)),
            ("message"@, ValueModel::Text(message@)),
        ]),
        Attachment::Payload { name, value, media_type } => ValueModel::Object(seq![
            ("kind"@, ValueModel::Text("payload"@)),
            ("media_type"@, text_or_null(opt_str_model(media_type))),
            ("name"@, ValueModel::Text(name@)),
            ("value"@, value@),
        ]),
    }
}

pub open spec fn attachment_items_model(items: Seq<Attachment>) -> Seq<ValueModel> {
    Seq::new(items.len(), |j: int| attachment_item_model(items[j]))
}

fn push_entry(v: &mut Vec<(String, AttachmentValue)>, key: &str, value: AttachmentValue)
    ensures
        entries_model(final(v)@) == entries_model(old(v)@).push((key@, value@)),
{
    let ghost before = v@;
    v.push((str_to_string(key), value));
    proof {
        assert(v@.drop_last() =~= before);
    }
}

fn push_item(v: &mut Vec<AttachmentValue>, value: AttachmentValue)
    ensures
        items_model(final(v)@) == items_model(old(v)@).push(value@),
{
    let ghost before = v@;
    v.push(value);
    proof {
        assert(v@.drop_last() =~= before);
    }
}

fn text_value(s: &str) -> (r: AttachmentValue)
    ensures
        r@ == ValueModel::Text(s@),
{
    AttachmentValue::String(str_to_string(s))
}

fn opt_text_value(o: &Option<String>) -> (r: AttachmentValue)
    ensures
        r@ == text_or_null(opt_str_model(*o)),
{
    match o {
        Some(s) => text_value(s.as_str()),
        None => AttachmentValue::Null,
    }
}

fn opt_id_value<const N: usize>(o: &Option<HexId<N>>) -> (r: AttachmentValue)
    ensures
        r@ == text_or_null(id_text(*o)),
{
    match o {
        Some(id) => text_value(id.as_str()),
        None => AttachmentValue::Null,
    }
}

fn opt_u32_value(o: Option<u32>) -> (r: AttachmentValue)
    ensures
        r@ == unsigned_or_null(opt_u32_int(o)),
{
    match o {
        Some(n) => AttachmentValue::Unsigned(n as u64),
        None => AttachmentValue::Null,
    }
}

fn opt_bool_value(o: Option<bool>) -> (r: AttachmentValue)
    ensures
        r@ == bool_or_null(o),
{
    match o {
        Some(b) => AttachmentValue::Bool(b),
        None => AttachmentValue::Null,
    }
}

/// The error as a value: `{message, type}`.
pub fn build_error_value(message: &str, type_label: &str) -> (r: AttachmentValue)
    ensures
        r@ == error_model(message@, type_label@),
{
    let mut map: Vec<(String, AttachmentValue)> = Vec::new();
    proof {
        assert(entries_model(map@) =~= Seq::empty());
    }
    push_entry(&mut map, "message", text_value(message));
    push_entry(&mut map, "type", text_value(type_label));
    let r = AttachmentValue::Object(map);
    proof {
        assert(entries_model(map@) =~= seq![("message"@, ValueModel::Text(message@)), ("type"@, ValueModel::Text(type_label@))]);
    }
    r
}

/// The trace context as a value, every field present and null where unset.
pub fn build_trace_attachment_context_value(context: &TraceContext) -> (r: AttachmentValue)
    ensures
        r@ == trace_context_model(*context),
{
    let mut map: Vec<(String, AttachmentValue)> = Vec::new();
    proof {
        assert(entries_model(map@) =~= Seq::empty());
    }
    let flags = match context.flags {
        Some(f) => AttachmentValue::Unsigned(f.bits as u64),
        None => AttachmentValue::Null,
    };
    push_entry(&mut map, "flags", flags);
    push_entry(&mut map, "parent_span_id", opt_id_value(&context.parent_span_id));
    push_entry(&mut map, "sampled", opt_bool_value(context.sampled));
    push_entry(&mut map, "span_id", opt_id_value(&context.span_id));
    push_entry(&mut map, "trace_id", opt_id_value(&context.trace_id));
    let state = match &context.trace_state {
        Some(s) => text_value(s.value.as_str()),
        None => AttachmentValue::Null,
    };
    push_entry(&mut map, "trace_state", state);
    let r = AttachmentValue::Object(map);
    proof {
        assert(entries_model(map@) =~= trace_context_entries(*context));
    }
    r
}

fn build_attribute_value(attr: &TraceEventAttribute) -> (r: AttachmentValue)
    ensures
        r@ == attribute_model(*attr),
{
    let mut map: Vec<(String, AttachmentValue)> = Vec::new();
    proof {
        assert(entries_model(map@) =~= Seq::empty());
    }
    push_entry(&mut map, "key", text_value(attr.key.as_str()));
    push_entry(&mut map, "value", attr.value.copy());
    let r = AttachmentValue::Object(map);
    proof {
        assert(entries_model(map@) =~= seq![("key"@, ValueModel::Text(attr.key@)), ("value"@, attr.value@)]);
    }
    r
}

/// A trace event as a value: its attributes, level, name and timestamp.
pub fn build_trace_attachment_event_value(event: &TraceEvent) -> (r: AttachmentValue)
    ensures
        r@ == event_model(*event),
{
    let mut attrs: Vec<AttachmentValue> = Vec::new();
    let mut i: usize = 0;
    while i < event.attributes.len()
        invariant
            i <= event.attributes@.len(),
            items_model(attrs@) == attributes_model(event.attributes@.take(i as int)),
        decreases event.attributes@.len() - i,
    {
        let ghost before = items_model(attrs@);
        push_item(&mut attrs, build_attribute_value(&event.attributes[i]));
        i = i + 1;
        proof {
            assert(attributes_model(event.attributes@.take(i as int)) =~= before.push(attribute_model(event.attributes@[i - 1])));
        }
    }
    proof {
        assert(event.attributes@.take(i as int) =~= event.attributes@);
    }
    let mut map: Vec<(String, AttachmentValue)> = Vec::new();
    proof {
        assert(entries_model(map@) =~= Seq::empty());
    }
    push_entry(&mut map, "attributes", AttachmentValue::Array(attrs));
    let level = match event.level {
        Some(l) => text_value(l.label()),
        None => AttachmentValue::Null,
    };
    push_entry(&mut map, "level", level);
    push_entry(&mut map, "name", text_value(event.name.as_str()));
    let ts = match event.timestamp_unix_nano {
        Some(t) => AttachmentValue::Unsigned(t),
        None => AttachmentValue::Null,
    };
    push_entry(&mut map, "timestamp_unix_nano", ts);
    let r = AttachmentValue::Object(map);
    proof {
        assert(entries_model(map@) =~= event_entries(*event));
    }
    r
}

/// The trace as a value: its context, the error, and its events.
pub fn build_trace_value(trace: &ReportTrace, message: &str, type_label: &str) -> (r: AttachmentValue)
    ensures
        r@ == trace_model(*trace, message@, type_label@),
{
    let context = match &trace.context {
        Some(c) => build_trace_attachment_context_value(c),
        None => build_trace_attachment_context_value(&TraceContext::new()),
    };
    let mut events: Vec<AttachmentValue> = Vec::new();
    let mut i: usize = 0;
    while i < trace.events.len()
        invariant
            i <= trace.events@.len(),
            items_model(events@) == events_model(trace.events@.take(i as int)),
        decreases trace.events@.len() - i,
    {
        let ghost before = items_model(events@);
        push_item(&mut events, build_trace_attachment_event_value(&trace.events[i]));
        i = i + 1;
        proof {
            assert(events_model(trace.events@.take(i as int)) =~= before.push(event_model(trace.events@[i - 1])));
        }
    }
    proof {
        assert(trace.events@.take(i as int) =~= trace.events@);
    }
    let mut map: Vec<(String, AttachmentValue)> = Vec::new();
    proof {
        assert(entries_model(map@) =~= Seq::empty());
    }
    push_entry(&mut map, "context", context);
    push_entry(&mut map, "error", build_error_value(message, type_label));
    push_entry(&mut map, "events", AttachmentValue::Array(events));
    let r = AttachmentValue::Object(map);
    proof {
        assert(entries_model(map@) =~= trace_entries(*trace, message@, type_label@));
    }
    r
}

/// A stack frame as a value, every field present and null where unknown.
pub fn build_stack_frame_value(frame: &StackFrame) -> (r: AttachmentValue)
    ensures
        r@ == frame_model(*frame),
{
    let mut map: Vec<(String, AttachmentValue)> = Vec::new();
    proof {
        assert(entries_model(map@) =~= Seq::empty());
    }
    push_entry(&mut map, "column", opt_u32_value(frame.column));
    push_entry(&mut map, "file", opt_text_value(&frame.file));
    push_entry(&mut map, "line", opt_u32_value(frame.line));
    push_entry(&mut map, "module_path", opt_text_value(&frame.module));
    push_entry(&mut map, "symbol", opt_text_value(&frame.symbol));
    let r = AttachmentValue::Object(map);
    proof {
        assert(entries_model(map@) =~= frame_entries(*frame));
    }
    r
}

/// A stack trace as a value: its format, frames and raw text.
pub fn build_stack_trace_value(stack_trace: &StackTrace) -> (r: AttachmentValue)
    ensures
        r@ == stack_trace_model(*stack_trace),
{
    let mut frames: Vec<AttachmentValue> = Vec::new();
    let mut i: usize = 0;
    while i < stack_trace.frames.len()
        invariant
            i <= stack_trace.frames@.len(),
            items_model(frames@) == frames_model(stack_trace.frames@.take(i as int)),
        decreases stack_trace.frames@.len() - i,
    {
        let ghost before = items_model(frames@);
        push_item(&mut frames, build_stack_frame_value(&stack_trace.frames[i]));
        i = i + 1;
        proof {
            assert(frames_model(stack_trace.frames@.take(i as int)) =~= before.push(frame_model(stack_trace.frames@[i - 1])));
        }
    }
    proof {
        assert(stack_trace.frames@.take(i as int) =~= stack_trace.frames@);
    }
    let format = match stack_trace.format {
        StackTraceFormat::Native => "native",
        StackTraceFormat::Raw => "raw",
    };
    let mut map: Vec<(String, AttachmentValue)> = Vec::new();
    proof {
        assert(entries_model(map@) =~= Seq::empty());
    }
    push_entry(&mut map, "format", text_value(format));
    push_entry(&mut map, "frames", AttachmentValue::Array(frames));
    push_entry(&mut map, "raw", opt_text_value(&stack_trace.raw));
    let r = AttachmentValue::Object(map);
    proof {
        assert(entries_model(map@) =~= stack_trace_entries(*stack_trace));
    }
    r
}

/// The display causes as a value: their texts and the traversal flags.
pub fn build_display_causes_value(items: &Vec<String>, state: CauseTraversalState) -> (r: AttachmentValue)
    ensures
        r@ == display_causes_model(items@, state),
{
    let mut values: Vec<AttachmentValue> = Vec::new();
    let mut i: usize = 0;
    while i < items.len()
        invariant
            i <= items@.len(),
            items_model(values@) == texts_model(items@.take(i as int)),
        decreases items@.len() - i,
    {
        let ghost before = items_model(values@);
        push_item(&mut values, text_value(items[i].as_str()));
        i = i + 1;
        proof {
            assert(texts_model(items@.take(i as int)) =~= before.push(ValueModel::Text(items@[i - 1]@)));
        }
    }
    proof {
        assert(items@.take(i as int) =~= items@);
    }
    let mut map: Vec<(String, AttachmentValue)> = Vec::new();
    proof {
        assert(entries_model(map@) =~= Seq::empty());
    }
    push_entry(&mut map, "cycle_detected", AttachmentValue::Bool(state.cycle_detected));
    push_entry(&mut map, "items", AttachmentValue::Array(values));
    push_entry(&mut map, "truncated", AttachmentValue::Bool(state.truncated));
    let r = AttachmentValue::Object(map);
    proof {
        assert(entries_model(map@) =~= display_causes_entries(items@, state));
    }
    r
}

/// Source error messages as a value: `{message}` items and the traversal
/// flags.
pub fn build_source_errors_value(messages: &Vec<String>, state: CauseTraversalState) -> (r: AttachmentValue)
    ensures
        r@ == source_errors_model(messages@, state),
{
    let mut values: Vec<AttachmentValue> = Vec::new();
    let mut i: usize = 0;
    while i < messages.len()
        invariant
            i <= messages@.len(),
            items_model(values@) == message_items_model(messages@.take(i as int)),
        decreases messages@.len() - i,
    {
        let ghost before = items_model(values@);
        let mut item: Vec<(String, AttachmentValue)> = Vec::new();
        proof {
            assert(entries_model(item@) =~= Seq::empty());
        }
        push_entry(&mut item, "message", text_value(messages[i].as_str()));
        proof {
            assert(entries_model(item@) =~= seq![("message"@, ValueModel::Text(messages@[i as int]@))]);
        }
        push_item(&mut values, AttachmentValue::Object(item));
        i = i + 1;
        proof {
            assert(message_items_model(messages@.take(i as int)) =~= before.push(message_item(messages@[i - 1]@)));
        }
    }
    proof {
        assert(messages@.take(i as int) =~= messages@);
    }
    let mut map: Vec<(String, AttachmentValue)> = Vec::new();
    proof {
        assert(entries_model(map@) =~= Seq::empty());
    }
    push_entry(&mut map, "cycle_detected", AttachmentValue::Bool(state.cycle_detected));
    push_entry(&mut map, "items", AttachmentValue::Array(values));
    push_entry(&mut map, "truncated", AttachmentValue::Bool(state.truncated));
    let r = AttachmentValue::Object(map);
    proof {
        assert(entries_model(map@) =~= source_errors_entries(messages@, state));
    }
    r
}

fn build_attachment_item(a: &Attachment) -> (r: AttachmentValue)
    ensures
        r@ == attachment_item_model(*a),
{
    let mut map: Vec<(String, AttachmentValue)> = Vec::new();
    proof {
        assert(entries_model(map@) =~= Seq::empty());
    }
    match a {
        Attachment::Note { message } => {
            push_entry(&mut map, "kind", text_value("note"));
            push_entry(&mut map, "message", text_value(message.as_str()));
        },
        Attachment::Payload { name, value, media_type } => {
            push_entry(&mut map, "kind", text_value("payload"));
            push_entry(&mut map, "media_type", opt_text_value(media_type));
            push_entry(&mut map, "name", text_value(name.as_str()));
            push_entry(&mut map, "value", value.copy());
        },
    }
    let r = AttachmentValue::Object(map);
    proof {
        match a {
            Attachment::Note { message } => {
                assert(entries_model(map@) =~= seq![("kind"@, ValueModel::Text("note"@)), ("message"@, ValueModel::Text(message@))]);
            },
            Attachment::Payload { name, value, media_type } => {
                assert(entries_model(map@) =~= seq![
                    ("kind"@, ValueModel::Text("payload"@)),
                    ("media_type"@, text_or_null(opt_str_model(*media_type))),
                    ("name"@, ValueModel::Text(name@)),
                    ("value"@, value@),
                ]);
            },
        }
    }
    r
}

/// The context entries as `{key, value}` items in key order, and the
/// attachments as note and payload items in the order they were attached.
pub fn build_ctx_and_attachments(context: &ContextMap, attachments: &Vec<Attachment>) -> (r: (Vec<AttachmentValue>, Vec<AttachmentValue>))
    ensures
        items_model(r.0@) == context_items_model(context.entries()),
        items_model(r.1@) == attachment_items_model(attachments@),
{
    let entries = context.sorted_entries();
    let mut ctx: Vec<AttachmentValue> = Vec::new();
    let mut i: usize = 0;
    while i < entries.len()
        invariant
            entries@ == context.entries(),
            i <= entries@.len(),
            items_model(ctx@) == context_items_model(entries@.take(i as int)),
        decreases entries@.len() - i,
    {
        let ghost before = items_model(ctx@);
        let (key, value) = &entries[i];
        let mut map: Vec<(String, AttachmentValue)> = Vec::new();
        proof {
            assert(entries_model(map@) =~= Seq::empty());
        }
        push_entry(&mut map, "key", text_value(key.as_str()));
        push_entry(&mut map, "value", value.copy());
        proof {
            assert(entries_model(map@) =~= seq![("key"@, ValueModel::Text(key@)), ("value"@, value@)]);
        }
        push_item(&mut ctx, AttachmentValue::Object(map));
        i = i + 1;
        proof {
            assert(context_items_model(entries@.take(i as int)) =~= before.push(context_item_model(entries@[i - 1])));
        }
    }
    proof {
        assert(entries@.take(i as int) =~= entries@);
    }
    let mut items: Vec<AttachmentValue> = Vec::new();
    let mut k: usize = 0;
    while k < attachments.len()
        invariant
            k <= attachments@.len(),
            items_model(items@) == attachment_items_model(attachments@.take(k as int)),
        decreases attachments@.len() - k,
    {
        let ghost before = items_model(items@);
        push_item(&mut items, build_attachment_item(&attachments[k]));
        k = k + 1;
        proof {
            assert(attachment_items_model(attachments@.take(k as int)) =~= before.push(attachment_item_model(attachments@[k - 1])));
        }
    }
    proof {
        assert(attachments@.take(k as int) =~= attachments@);
    }
    (ctx, items)
}

/// Node ids as signed numbers.
pub open spec fn ids_model(ids: Seq<usize>) -> Seq<ValueModel> {
    Seq::new(ids.len(), |j: int| ValueModel::Integer((ids[j] as i64) as int))
}

/// A captured source error: `{message, source_roots}`, with `type` after
/// them when a type name is shown.
pub open spec fn source_node_entries(n: SourceErrorItem, hide: bool) -> Seq<(Seq<char>, ValueModel)> {
    seq![("message"@, ValueModel::Text(n.message@)), ("source_roots"@, ValueModel::Array(ids_model(n.source_roots@)))]
    + (match display_type_name(opt_view(n.type_label), hide) { Some(t) => seq![("type"@, ValueModel::Text(t))], None => Seq::empty() })
}

pub open spec fn source_nodes_model(nodes: Seq<SourceErrorItem>, hide: bool) -> Seq<ValueModel> {
    Seq::new(nodes.len(), |j: int| ValueModel::Object(source_node_entries(nodes[j], hide)))
}

/// A source-error chain: `{cycle_detected, nodes, roots, truncated}`.
pub open spec fn source_chain_entries(c: SourceErrorChain, hide: bool) -> Seq<(Seq<char>, ValueModel)> {
    seq![
        ("cycle_detected"@, ValueModel::Bool(c.cycle_detected)),
        ("nodes"@, ValueModel::Array(source_nodes_model(c.nodes@, hide))),
        ("roots"@, ValueModel::Array(ids_model(c.roots@))),
        ("truncated"@, ValueModel::Bool(c.truncated)),
    ]
}

fn build_ids_value(ids: &Vec<usize>) -> (r: AttachmentValue)
    ensures
        r@ == ValueModel::Array(ids_model(ids@)),
{
    let mut out: Vec<AttachmentValue> = Vec::new();
    let mut i: usize = 0;
    while i < ids.len()
        invariant
            i <= ids@.len(),
            items_model(out@) == ids_model(ids@.take(i as int)),
        decreases ids@.len() - i,
    {
        let ghost before = items_model(out@);
        let id = ids[i];
        push_item(&mut out, AttachmentValue::Integer(id as i64));
        i = i + 1;
        proof {
            assert(ids_model(ids@.take(i as int)) =~= before.push(ValueModel::Integer((id as i64) as int)));
        }
    }
    proof {
        assert(ids@.take(i as int) =~= ids@);
    }
    AttachmentValue::Array(out)
}

fn build_source_node_value(n: &SourceErrorItem, hide: bool) -> (r: AttachmentValue)
    ensures
        r@ == ValueModel::Object(source_node_entries(*n, hide)),
{
    let mut map: Vec<(String, AttachmentValue)> = Vec::new();
    proof {
        assert(entries_model(map@) =~= Seq::empty());
    }
    push_entry(&mut map, "message", text_value(n.message.as_str()));
    push_entry(&mut map, "source_roots", build_ids_value(&n.source_roots));
    match n.type_name_for_display(hide) {
        Some(t) => push_entry(&mut map, "type", AttachmentValue::String(t)),
        None => {},
    }
    proof {
        assert(entries_model(map@) =~= source_node_entries(*n, hide));
    }
    AttachmentValue::Object(map)
}

/// A source-error chain as a value: its nodes (message, source ids and the
/// shown type name), its roots and its flags.
pub fn build_source_chain_value(chain: &SourceErrorChain, hide_report_wrapper_types: bool) -> (r: AttachmentValue)
    ensures
        r@ == ValueModel::Object(source_chain_entries(*chain, hide_report_wrapper_types)),
{
    let mut nodes: Vec<AttachmentValue> = Vec::new();
    let mut i: usize = 0;
    while i < chain.nodes.len()
        invariant
            i <= chain.nodes@.len(),
            items_model(nodes@) == source_nodes_model(chain.nodes@.take(i as int), hide_report_wrapper_types),
        decreases chain.nodes@.len() - i,
    {
        let ghost before = items_model(nodes@);
        push_item(&mut nodes, build_source_node_value(&chain.nodes[i], hide_report_wrapper_types));
        i = i + 1;
        proof {
            assert(source_nodes_model(chain.nodes@.take(i as int), hide_report_wrapper_types)
                =~= before.push(ValueModel::Object(source_node_entries(chain.nodes@[i - 1], hide_report_wrapper_types))));
        }
    }
    proof {
        assert(chain.nodes@.take(i as int) =~= chain.nodes@);
    }
    let mut map: Vec<(String, AttachmentValue)> = Vec::new();
    proof {
        assert(entries_model(map@) =~= Seq::empty());
    }
    push_entry(&mut map, "cycle_detected", AttachmentValue::Bool(chain.cycle_detected));
    push_entry(&mut map, "nodes", AttachmentValue::Array(nodes));
    push_entry(&mut map, "roots", build_ids_value(&chain.roots));
    push_entry(&mut map, "truncated", AttachmentValue::Bool(chain.truncated));
    proof {
        assert(entries_model(map@) =~= source_chain_entries(*chain, hide_report_wrapper_types));
    }
    AttachmentValue::Object(map)
}

} // verus!
