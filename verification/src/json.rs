//! A small JSON document model and its serialisation, compact or indented.
//!
//! Compact output has no whitespace. Indented output puts each array item
//! and object field on a line of its own, indented two spaces per level,
//! writes `"key": value`, and closes a non-empty container on its own line;
//! empty containers stay `[]` and `{}`.

use vstd::prelude::*;
use crate::text::{append_json_string, append_str, json_string};

verus! {

/// A JSON value; numbers are held as their text.
#[derive(Debug, PartialEq)]
pub enum JsonValue {
    Null,
    Bool(bool),
    Number(String),
    Str(String),
    Array(Vec<JsonValue>),
    Object(Vec<(String, JsonValue)>),
}

/// The plain value of a JSON value.
pub enum JsonModel {
    Null,
    Bool(bool),
    Number(Seq<char>),
    Str(Seq<char>),
    Array(Seq<JsonModel>),
    Object(Seq<(Seq<char>, JsonModel)>),
}

pub open spec fn json_model(v: JsonValue) -> JsonModel
    decreases v, 2nat,
{
    match v {
        JsonValue::Null => JsonModel::Null,
        JsonValue::Bool(b) => JsonModel::Bool(b),
        JsonValue::Number(t) => JsonModel::Number(t@),
        JsonValue::Str(s) => JsonModel::Str(s@),
        JsonValue::Array(items) => JsonModel::Array(json_items_model(items@)),
        JsonValue::Object(fields) => JsonModel::Object(json_fields_model(fields@)),
    }
}

pub open spec fn json_items_model(items: Seq<JsonValue>) -> Seq<JsonModel>
    decreases items, 1nat,
{
    if items.len() == 0 {
        Seq::empty()
    } else {
        json_items_model(items.drop_last()).push(json_model(items.last()))
    }
}

pub open spec fn json_fields_model(fields: Seq<(String, JsonValue)>) -> Seq<(Seq<char>, JsonModel)>
    decreases fields, 1nat,
{
    if fields.len() == 0 {
        Seq::empty()
    } else {
        json_fields_model(fields.drop_last()).push((fields.last().0@, json_model(fields.last().1)))
    }
}

impl View for JsonValue {
    type V = JsonModel;

    open spec fn view(&self) -> JsonModel {
        json_model(*self)
    }
}

/// The plain items of a JSON array: one per item, in order.
pub proof fn lemma_json_items_model(items: Seq<JsonValue>)
    ensures
        json_items_model(items).len() == items.len(),
        forall|i: int| 0 <= i < items.len() ==> #[trigger] json_items_model(items)[i] == json_model(items[i]),
    decreases items.len(),
{
    if items.len() > 0 {
        lemma_json_items_model(items.drop_last());
    }
}

/// The plain fields of a JSON object: one per field, keys kept, in order.
pub proof fn lemma_json_fields_model(fields: Seq<(String, JsonValue)>)
    ensures
        json_fields_model(fields).len() == fields.len(),
        forall|i: int| 0 <= i < fields.len() ==> #[trigger] json_fields_model(fields)[i] == (fields[i].0@, json_model(fields[i].1)),
    decreases fields.len(),
{
    if fields.len() > 0 {
        lemma_json_fields_model(fields.drop_last());
    }
}

/// The indentation one level deeper.
pub open spec fn deeper(indent: Seq<char>) -> Seq<char> {
    indent + "  "@
}

/// What goes before an item or field: a comma after the first, then in
/// indented output a new line and the indentation.
pub open spec fn item_prefix(first: bool, pretty: bool, indent: Seq<char>) -> Seq<char> {
    (if first { Seq::empty() } else { seq![','] }) + (if pretty { seq!['\n'] + indent } else { Seq::empty() })
}

/// What closes a container of the given emptiness.
pub open spec fn closing(empty: bool, pretty: bool, indent: Seq<char>, bracket: char) -> Seq<char> {
    (if pretty && !empty { seq!['\n'] + indent } else { Seq::empty() }) + seq![bracket]
}

/// The text of a JSON value at indentation `indent`.
pub open spec fn json_text(v: JsonModel, pretty: bool, indent: Seq<char>) -> Seq<char>
    decreases v, 2nat,
{
    match v {
        JsonModel::Null => "null"@,
        JsonModel::Bool(b) => if b { "true"@ } else { "false"@ },
        JsonModel::Number(t) => t,
        JsonModel::Str(s) => json_string(s),
        JsonModel::Array(items) => seq!['['] + json_items_text(items, pretty, indent) + closing(items.len() == 0, pretty, indent, ']'),
        JsonModel::Object(fields) => seq!['{'] + json_fields_text(fields, pretty, indent) + closing(fields.len() == 0, pretty, indent, '}'),
    }
}

/// The items of an array, each with its prefix, at the array's indentation.
pub open spec fn json_items_text(items: Seq<JsonModel>, pretty: bool, indent: Seq<char>) -> Seq<char>
    decreases items, 1nat,
{
    if items.len() == 0 {
        Seq::empty()
    } else {
        json_items_text(items.drop_last(), pretty, indent)
            + item_prefix(items.len() == 1, pretty, deeper(indent))
            + json_text(items.last(), pretty, deeper(indent))
    }
}

/// The fields of an object, each `"key":value` with its prefix.
pub open spec fn json_fields_text(fields: Seq<(Seq<char>, JsonModel)>, pretty: bool, indent: Seq<char>) -> Seq<char>
    decreases fields, 1nat,
{
    if fields.len() == 0 {
        Seq::empty()
    } else {
        json_fields_text(fields.drop_last(), pretty, indent)
            + item_prefix(fields.len() == 1, pretty, deeper(indent))
            + json_string(fields.last().0)
            + (if pretty { ": "@ } else { ":"@ })
            + json_text(fields.last().1, pretty, deeper(indent))
    }
}

fn write_prefix(out: &mut String, first: bool, pretty: bool, indent: &str)
    ensures
        final(out)@ == old(out)@ + item_prefix(first, pretty, indent@),
{
    let ghost start = out@;
    if !first {
        append_str(out, ",");
    }
    if pretty {
        append_str(out, "\n");
        append_str(out, indent);
    }
    proof {
        reveal_strlit(",");
        reveal_strlit("\n");
        assert(out@ =~= start + item_prefix(first, pretty, indent@));
    }
}

fn write_closing(out: &mut String, empty: bool, pretty: bool, indent: &str, bracket: char)
    ensures
        final(out)@ == old(out)@ + closing(empty, pretty, indent@, bracket),
{
    let ghost start = out@;
    if pretty && !empty {
        append_str(out, "\n");
        append_str(out, indent);
    }
    crate::text::push_char(out, bracket);
    proof {
        reveal_strlit("\n");
        assert(out@ =~= start + closing(empty, pretty, indent@, bracket));
    }
}

fn deeper_indent(indent: &str) -> (r: String)
    ensures
        r@ == deeper(indent@),
{
    let mut s = String::new();
    append_str(&mut s, indent);
    append_str(&mut s, "  ");
    s
}

/// Appends the text of `v` at indentation `indent`.
pub fn write_json(out: &mut String, v: &JsonValue, pretty: bool, indent: &str)
    ensures
        final(out)@ == old(out)@ + json_text(v@, pretty, indent@),
    decreases v,
{
    let ghost start = out@;
    match v {
        JsonValue::Null => append_str(out, "null"),
        JsonValue::Bool(b) => {
            if *b { append_str(out, "true") } else { append_str(out, "false") }
        },
        JsonValue::Number(t) => append_str(out, t.as_str()),
        JsonValue::Str(s) => append_json_string(out, s.as_str()),
        JsonValue::Array(items) => {
            append_str(out, "[");
            let inner = deeper_indent(indent);
            let mut i: usize = 0;
            while i < items.len()
                invariant
                    i <= items@.len(),
                    *v == JsonValue::Array(*items),
                    inner@ == deeper(indent@),
                    out@ == start + "["@ + json_items_text(json_items_model(items@.take(i as int)), pretty, indent@),
                decreases items@.len() - i,
            {
                proof {
                    vstd::std_specs::vec::axiom_vec_index_decreases(*items, i as int);
                    assert(decreases_to!(*v => v->Array_0));
                    assert(decreases_to!(*v => items[i as int]));
                }
                write_prefix(out, i == 0, pretty, inner.as_str());
                write_json(out, &items[i], pretty, inner.as_str());
                proof {
                    let t = items@.take(i as int + 1);
                    assert(t.drop_last() =~= items@.take(i as int));
                    lemma_json_items_model(t);
                    lemma_json_items_model(items@.take(i as int));
                    assert(json_items_model(t).drop_last() =~= json_items_model(items@.take(i as int)));
                }
                i = i + 1;
            }
            write_closing(out, items.len() == 0, pretty, indent, ']');
            proof {
                assert(items@.take(items@.len() as int) =~= items@);
                lemma_json_items_model(items@);
                reveal_strlit("[");
                assert(out@ =~= start + json_text(v@, pretty, indent@));
            }
        },
        JsonValue::Object(fields) => {
            append_str(out, "{");
            let inner = deeper_indent(indent);
            let mut i: usize = 0;
            while i < fields.len()
                invariant
                    i <= fields@.len(),
                    *v == JsonValue::Object(*fields),
                    inner@ == deeper(indent@),
                    out@ == start + "{"@ + json_fields_text(json_fields_model(fields@.take(i as int)), pretty, indent@),
                decreases fields@.len() - i,
            {
                proof {
                    vstd::std_specs::vec::axiom_vec_index_decreases(*fields, i as int);
                    assert(decreases_to!(*v => v->Object_0));
                    assert(decreases_to!(fields[i as int] => fields[i as int].1));
                    assert(decreases_to!(*v => fields[i as int].1));
                }
                write_prefix(out, i == 0, pretty, inner.as_str());
                append_json_string(out, fields[i].0.as_str());
                if pretty { append_str(out, ": ") } else { append_str(out, ":") }
                write_json(out, &fields[i].1, pretty, inner.as_str());
                proof {
                    let t = fields@.take(i as int + 1);
                    assert(t.drop_last() =~= fields@.take(i as int));
                    lemma_json_fields_model(t);
                    lemma_json_fields_model(fields@.take(i as int));
                    assert(json_fields_model(t).drop_last() =~= json_fields_model(fields@.take(i as int)));
                }
                i = i + 1;
            }
            write_closing(out, fields.len() == 0, pretty, indent, '}');
            proof {
                assert(fields@.take(fields@.len() as int) =~= fields@);
                lemma_json_fields_model(fields@);
                reveal_strlit("{");
                assert(out@ =~= start + json_text(v@, pretty, indent@));
            }
        },
    }
}

/// The text of a JSON document.
pub fn to_json_string(v: &JsonValue, pretty: bool) -> (r: String)
    ensures
        r@ == json_text(v@, pretty, Seq::empty()),
{
    let mut out = String::new();
    write_json(&mut out, v, pretty, "");
    proof {
        reveal_strlit("");
        assert(""@ =~= Seq::<char>::empty());
    }
    out
}

/// An object under construction: appends a field.
pub fn push_field(fields: &mut Vec<(String, JsonValue)>, key: &str, value: JsonValue)
    ensures
        json_fields_model(final(fields)@) == json_fields_model(old(fields)@).push((key@, value@)),
        final(fields)@.len() == old(fields)@.len() + 1,
{
    let k = crate::text::str_to_string(key);
    let ghost before = fields@;
    fields.push((k, value));
    proof {
        assert(fields@.drop_last() =~= before);
    }
}

/// An array under construction: appends an item.
pub fn push_item(items: &mut Vec<JsonValue>, value: JsonValue)
    ensures
        json_items_model(final(items)@) == json_items_model(old(items)@).push(value@),
        final(items)@.len() == old(items)@.len() + 1,
{
    let ghost before = items@;
    items.push(value);
    proof {
        assert(items@.drop_last() =~= before);
    }
}

/// A JSON string.
pub fn json_str(s: &str) -> (r: JsonValue)
    ensures
        r@ == JsonModel::Str(s@),
{
    JsonValue::Str(crate::text::str_to_string(s))
}

/// A JSON string or `null`.
pub fn json_opt_str(s: &Option<String>) -> (r: JsonValue)
    ensures
        r@ == (match *s { Some(t) => JsonModel::Str(t@), None => JsonModel::Null }),
{
    match s {
        Some(t) => JsonValue::Str(t.clone()),
        None => JsonValue::Null,
    }
}

} // verus!
