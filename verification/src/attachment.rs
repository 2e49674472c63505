//! Attachment values (scalars, arrays, objects, bytes, redacted markers),
//! attachments (context entries, notes, payloads) and their text rendering.

use vstd::prelude::*;
use crate::text::{append_i64, append_u64, append_str, dec_int, dec_nat};

verus! {

/// A floating-point number held by its IEEE-754 bits together with the text
/// it renders as.
#[derive(Debug, Clone, PartialEq)]
pub struct FloatValue {
    pub bits: u64,
    pub text: String,
}

/// Whether the IEEE-754 bits denote a finite number (the exponent field is
/// not all ones).
pub open spec fn float_bits_finite(bits: u64) -> bool {
    (bits >> 52u64) & 0x7ffu64 != 0x7ffu64
}

impl FloatValue {
    /// A float given by its bits and its rendering.
    pub fn new(bits: u64, text: String) -> (r: Self)
        ensures
            r.bits == bits,
            r.text@ == text@,
    {
        FloatValue { bits, text }
    }

    /// Whether the number is finite (neither infinite nor NaN).
    pub fn is_finite(&self) -> (r: bool)
        ensures
            r == float_bits_finite(self.bits),
    {
        (self.bits >> 52u64) & 0x7ffu64 != 0x7ffu64
    }

    /// A copy with the same bits and text.
    pub fn copy(&self) -> (r: Self)
        ensures
            r.bits == self.bits,
            r.text@ == self.text@,
    {
        FloatValue { bits: self.bits, text: self.text.clone() }
    }
}

/// A structured value carried by context entries, payloads and trace
/// attributes. Object entries are kept sorted by key, without duplicates.
#[derive(Debug, PartialEq)]
pub enum AttachmentValue {
    Null,
    String(String),
    Integer(i64),
    Unsigned(u64),
    Float(FloatValue),
    Bool(bool),
    Array(Vec<AttachmentValue>),
    Object(Vec<(String, AttachmentValue)>),
    Bytes(Vec<u8>),
    Redacted { kind: Option<String>, reason: Option<String> },
}

/// Context values are attachment values.
pub type ContextValue = AttachmentValue;

/// The plain value an attachment value stands for.
pub enum ValueModel {
    Null,
    Text(Seq<char>),
    Integer(int),
    Unsigned(int),
    Float(u64, Seq<char>),
    Bool(bool),
    Array(Seq<ValueModel>),
    Object(Seq<(Seq<char>, ValueModel)>),
    Bytes(Seq<u8>),
    Redacted(Option<Seq<char>>, Option<Seq<char>>),
}

pub open spec fn opt_str_model(o: Option<String>) -> Option<Seq<char>> {
    match o {
        Some(s) => Some(s@),
        None => None,
    }
}

/// The plain value of an attachment value.
pub open spec fn value_model(v: AttachmentValue) -> ValueModel
    decreases v, 2nat,
{
    match v {
        AttachmentValue::Null => ValueModel::Null,
        AttachmentValue::String(s) => ValueModel::Text(s@),
        AttachmentValue::Integer(i) => ValueModel::Integer(i as int),
        AttachmentValue::Unsigned(u) => ValueModel::Unsigned(u as int),
        AttachmentValue::Float(f) => ValueModel::Float(f.bits, f.text@),
        AttachmentValue::Bool(b) => ValueModel::Bool(b),
        AttachmentValue::Array(items) => ValueModel::Array(items_model(items@)),
        AttachmentValue::Object(entries) => ValueModel::Object(entries_model(entries@)),
        AttachmentValue::Bytes(b) => ValueModel::Bytes(b@),
        AttachmentValue::Redacted { kind, reason } => ValueModel::Redacted(opt_str_model(kind), opt_str_model(reason)),
    }
}

pub open spec fn items_model(items: Seq<AttachmentValue>) -> Seq<ValueModel>
    decreases items, 1nat,
{
    if items.len() == 0 {
        Seq::empty()
    } else {
        items_model(items.drop_last()).push(value_model(items.last()))
    }
}

pub open spec fn entries_model(entries: Seq<(String, AttachmentValue)>) -> Seq<(Seq<char>, ValueModel)>
    decreases entries, 1nat,
{
    if entries.len() == 0 {
        Seq::empty()
    } else {
        entries_model(entries.drop_last()).push((entries.last().0@, value_model(entries.last().1)))
    }
}

impl View for AttachmentValue {
    type V = ValueModel;

    open spec fn view(&self) -> ValueModel {
        value_model(*self)
    }
}

/// The plain values of a list of values: one per item, in order.
pub proof fn lemma_items_model_len(items: Seq<AttachmentValue>)
    ensures
        items_model(items).len() == items.len(),
        forall|i: int| 0 <= i < items.len() ==> #[trigger] items_model(items)[i] == value_model(items[i]),
    decreases items.len(),
{
    if items.len() > 0 {
        lemma_items_model_len(items.drop_last());
    }
}

/// The plain entries of an object: one per entry, keys kept, in order.
pub proof fn lemma_entries_model_len(entries: Seq<(String, AttachmentValue)>)
    ensures
        entries_model(entries).len() == entries.len(),
        forall|i: int| 0 <= i < entries.len() ==> #[trigger] entries_model(entries)[i] == (entries[i].0@, value_model(entries[i].1)),
    decreases entries.len(),
{
    if entries.len() > 0 {
        lemma_entries_model_len(entries.drop_last());
    }
}

/// Strict lexicographic order of character sequences (the order of `str`).
pub open spec fn seq_lt(a: Seq<char>, b: Seq<char>) -> bool
    decreases a.len(),
{
    if b.len() == 0 {
        false
    } else if a.len() == 0 {
        true
    } else if a[0] != b[0] {
        a[0] < b[0]
    } else {
        seq_lt(a.skip(1), b.skip(1))
    }
}

/// Text of `Some`/`None` strings used by redacted markers.
pub open spec fn redacted_text(kind: Option<Seq<char>>, reason: Option<Seq<char>>) -> Seq<char> {
    match (kind, reason) {
        (Some(k), Some(r)) => "<redacted:"@ + k + seq![':'] + r + seq!['>'],
        (Some(k), None) => "<redacted:"@ + k + seq!['>'],
        (None, Some(r)) => "<redacted:"@ + r + seq!['>'],
        (None, None) => "<redacted>"@,
    }
}

/// The text an attachment value renders as: scalars as themselves, arrays as
/// `[a, b]`, objects as `{k: v, ...}`, bytes as `<n bytes>`.
pub open spec fn value_text(v: ValueModel) -> Seq<char>
    decreases v, 2nat,
{
    match v {
        ValueModel::Null => "null"@,
        ValueModel::Text(s) => s,
        ValueModel::Integer(i) => dec_int(i),
        ValueModel::Unsigned(u) => dec_nat(u as nat),
        ValueModel::Float(_, t) => t,
        ValueModel::Bool(b) => if b { "true"@ } else { "false"@ },
        ValueModel::Array(items) => seq!['['] + items_text(items) + seq![']'],
        ValueModel::Object(entries) => seq!['{'] + entries_text(entries) + seq!['}'],
        ValueModel::Bytes(b) => seq!['<'] + dec_nat(b.len()) + " bytes>"@,
        ValueModel::Redacted(kind, reason) => redacted_text(kind, reason),
    }
}

/// Array items joined by `", "`.
pub open spec fn items_text(items: Seq<ValueModel>) -> Seq<char>
    decreases items, 1nat,
{
    if items.len() == 0 {
        Seq::empty()
    } else if items.len() == 1 {
        value_text(items[0])
    } else {
        items_text(items.drop_last()) + ", "@ + value_text(items.last())
    }
}

/// Object entries rendered as `key: value` and joined by `", "`.
pub open spec fn entries_text(entries: Seq<(Seq<char>, ValueModel)>) -> Seq<char>
    decreases entries, 1nat,
{
    if entries.len() == 0 {
        Seq::empty()
    } else if entries.len() == 1 {
        entries[0].0 + ": "@ + value_text(entries[0].1)
    } else {
        entries_text(entries.drop_last()) + ", "@ + entries.last().0 + ": "@ + value_text(entries.last().1)
    }
}

/// Appends an optional string's copy.
fn copy_opt_string(o: &Option<String>) -> (r: Option<String>)
    ensures
        opt_str_model(r) == opt_str_model(*o),
{
    match o {
        Some(s) => Some(s.clone()),
        None => None,
    }
}

impl AttachmentValue {
    /// A copy holding the same plain value.
    pub fn copy(&self) -> (r: AttachmentValue)
        ensures
            r@ == self@,
        decreases self,
    {
        match self {
            AttachmentValue::Null => AttachmentValue::Null,
            AttachmentValue::String(s) => AttachmentValue::String(s.clone()),
            AttachmentValue::Integer(i) => AttachmentValue::Integer(*i),
            AttachmentValue::Unsigned(u) => AttachmentValue::Unsigned(*u),
            AttachmentValue::Float(f) => AttachmentValue::Float(f.copy()),
            AttachmentValue::Bool(b) => AttachmentValue::Bool(*b),
            AttachmentValue::Array(items) => {
                let mut out: Vec<AttachmentValue> = Vec::new();
                let mut i: usize = 0;
                while i < items.len()
                    invariant
                        i <= items@.len(),
                        items_model(out@) == items_model(items@.take(i as int)),
                        *self == AttachmentValue::Array(*items),
                    decreases items@.len() - i,
                {
                    proof {
                        vstd::std_specs::vec::axiom_vec_index_decreases(*items, i as int);
                        assert(decreases_to!(*self => self->Array_0));
                        assert(decreases_to!(*self => items[i as int]));
                    }
                    let c = items[i].copy();
                    let ghost prev = out@;
                    out.push(c);
                    proof {
                        assert(out@.drop_last() =~= prev);
                        assert(items@.take(i as int + 1).drop_last() =~= items@.take(i as int));
                    }
                    i = i + 1;
                }
                proof {
                    assert(items@.take(items@.len() as int) =~= items@);
                }
                AttachmentValue::Array(out)
            },
            AttachmentValue::Object(entries) => {
                let mut out: Vec<(String, AttachmentValue)> = Vec::new();
                let mut i: usize = 0;
                while i < entries.len()
                    invariant
                        i <= entries@.len(),
                        entries_model(out@) == entries_model(entries@.take(i as int)),
                        *self == AttachmentValue::Object(*entries),
                    decreases entries@.len() - i,
                {
                    let k = entries[i].0.clone();
                    proof {
                        vstd::std_specs::vec::axiom_vec_index_decreases(*entries, i as int);
                        assert(decreases_to!(*self => self->Object_0));
                        assert(decreases_to!(entries[i as int] => entries[i as int].1));
                        assert(decreases_to!(*self => entries[i as int].1));
                    }
                    let c = entries[i].1.copy();
                    let ghost prev = out@;
                    out.push((k, c));
                    proof {
                        assert(out@.drop_last() =~= prev);
                        assert(entries@.take(i as int + 1).drop_last() =~= entries@.take(i as int));
                    }
                    i = i + 1;
                }
                proof {
                    assert(entries@.take(entries@.len() as int) =~= entries@);
                }
                AttachmentValue::Object(out)
            },
            AttachmentValue::Bytes(b) => {
                let c = b.clone();
                proof {
                    assert(c@ =~= b@);
                }
                AttachmentValue::Bytes(c)
            },
            AttachmentValue::Redacted { kind, reason } => AttachmentValue::Redacted {
                kind: copy_opt_string(kind),
                reason: copy_opt_string(reason),
            },
        }
    }
}

fn append_opt_redacted(out: &mut String, kind: &Option<String>, reason: &Option<String>)
    ensures
        final(out)@ == old(out)@ + redacted_text(opt_str_model(*kind), opt_str_model(*reason)),
{
    let ghost start = out@;
    match (kind, reason) {
        (Some(k), Some(r)) => {
            append_str(out, "<redacted:");
            append_str(out, k.as_str());
            append_str(out, ":");
            append_str(out, r.as_str());
            append_str(out, ">");
            proof {
                reveal_strlit(":");
                reveal_strlit(">");
                assert(out@ =~= start + redacted_text(opt_str_model(*kind), opt_str_model(*reason)));
            }
        },
        (Some(k), None) => {
            append_str(out, "<redacted:");
            append_str(out, k.as_str());
            append_str(out, ">");
            proof {
                reveal_strlit(">");
                assert(out@ =~= start + redacted_text(opt_str_model(*kind), opt_str_model(*reason)));
            }
        },
        (None, Some(r)) => {
            append_str(out, "<redacted:");
            append_str(out, r.as_str());
            append_str(out, ">");
            proof {
                reveal_strlit(">");
                assert(out@ =~= start + redacted_text(opt_str_model(*kind), opt_str_model(*reason)));
            }
        },
        (None, None) => {
            append_str(out, "<redacted>");
        },
    }
}

/// Appends the text of `v`.
pub fn append_value_text(out: &mut String, v: &AttachmentValue)
    ensures
        final(out)@ == old(out)@ + value_text(v@),
    decreases v,
{
    let ghost start = out@;
    match v {
        AttachmentValue::Null => append_str(out, "null"),
        AttachmentValue::String(s) => append_str(out, s.as_str()),
        AttachmentValue::Integer(i) => append_i64(out, *i),
        AttachmentValue::Unsigned(u) => append_u64(out, *u),
        AttachmentValue::Float(f) => append_str(out, f.text.as_str()),
        AttachmentValue::Bool(b) => {
            if *b { append_str(out, "true") } else { append_str(out, "false") }
        },
        AttachmentValue::Array(items) => {
            append_str(out, "[");
            let mut i: usize = 0;
            while i < items.len()
                invariant
                    i <= items@.len(),
                    *v == AttachmentValue::Array(*items),
                    out@ == start + "["@ + items_text(items_model(items@.take(i as int))),
                decreases items@.len() - i,
            {
                proof {
                    vstd::std_specs::vec::axiom_vec_index_decreases(*items, i as int);
                    assert(decreases_to!(*v => v->Array_0));
                    assert(decreases_to!(*v => items[i as int]));
                }
                if i > 0 {
                    append_str(out, ", ");
                }
                append_value_text(out, &items[i]);
                proof {
                    let t = items@.take(i as int + 1);
                    assert(t.drop_last() =~= items@.take(i as int));
                    lemma_items_model_len(t);
                    lemma_items_model_len(items@.take(i as int));
                    assert(items_model(t).drop_last() =~= items_model(items@.take(i as int)));
                    if i == 0 {
                        assert(items_model(t) =~= seq![value_model(items@[0])]);
                        assert(items_model(items@.take(0)) =~= Seq::<ValueModel>::empty());
                    }
                }
                i = i + 1;
            }
            append_str(out, "]");
            proof {
                assert(items@.take(items@.len() as int) =~= items@);
                reveal_strlit("[");
                reveal_strlit("]");
                assert(out@ =~= start + value_text(v@));
            }
        },
        AttachmentValue::Object(entries) => {
            append_str(out, "{");
            let mut i: usize = 0;
            while i < entries.len()
                invariant
                    i <= entries@.len(),
                    *v == AttachmentValue::Object(*entries),
                    out@ == start + "{"@ + entries_text(entries_model(entries@.take(i as int))),
                decreases entries@.len() - i,
            {
                proof {
                    vstd::std_specs::vec::axiom_vec_index_decreases(*entries, i as int);
                    assert(decreases_to!(*v => v->Object_0));
                    assert(decreases_to!(entries[i as int] => entries[i as int].1));
                    assert(decreases_to!(*v => entries[i as int].1));
                }
                if i > 0 {
                    append_str(out, ", ");
                }
                append_str(out, entries[i].0.as_str());
                append_str(out, ": ");
                append_value_text(out, &entries[i].1);
                proof {
                    let t = entries@.take(i as int + 1);
                    assert(t.drop_last() =~= entries@.take(i as int));
                    lemma_entries_model_len(t);
                    lemma_entries_model_len(entries@.take(i as int));
                    assert(entries_model(t).drop_last() =~= entries_model(entries@.take(i as int)));
                    if i == 0 {
                        assert(entries_model(t) =~= seq![(entries@[0].0@, value_model(entries@[0].1))]);
                        assert(entries_model(entries@.take(0)) =~= Seq::<(Seq<char>, ValueModel)>::empty());
                    }
                }
                i = i + 1;
            }
            append_str(out, "}");
            proof {
                assert(entries@.take(entries@.len() as int) =~= entries@);
                reveal_strlit("{");
                reveal_strlit("}");
                assert(out@ =~= start + value_text(v@));
            }
        },
        AttachmentValue::Bytes(b) => {
            append_str(out, "<");
            append_u64(out, b.len() as u64);
            append_str(out, " bytes>");
            proof {
                reveal_strlit("<");
                assert(out@ =~= start + value_text(v@));
            }
        },
        AttachmentValue::Redacted { kind, reason } => append_opt_redacted(out, kind, reason),
    }
}

/// The text of `v`: scalars as themselves, arrays as `[a, b]`, objects as
/// `{k: v}`, bytes as `<n bytes>`, redacted markers as `<redacted:..>`.
pub fn value_to_text(v: &AttachmentValue) -> (r: String)
    ensures
        r@ == value_text(v@),
{
    let mut out = String::new();
    append_value_text(&mut out, v);
    out
}

/// An attachment of a report: a note or a named payload.
#[derive(Debug, PartialEq)]
pub enum Attachment {
    Note { message: String },
    Payload { name: String, value: AttachmentValue, media_type: Option<String> },
}

impl Attachment {
    /// A note attachment.
    pub fn note(message: String) -> (r: Self)
        ensures
            r matches Attachment::Note { message: m } && m@ == message@,
    {
        Attachment::Note { message }
    }

    /// A payload attachment.
    pub fn payload(name: String, value: AttachmentValue, media_type: Option<String>) -> (r: Self)
        ensures
            r == (Attachment::Payload { name, value, media_type }),
    {
        Attachment::Payload { name, value, media_type }
    }

    /// The note's message, when this is a note.
    pub fn as_note(&self) -> (r: Option<&String>)
        ensures
            self matches Attachment::Note { message } ==> r == Some(message),
            self is Payload ==> r is None,
    {
        match self {
            Attachment::Note { message } => Some(message),
            Attachment::Payload { .. } => None,
        }
    }

    /// The payload's parts, when this is a payload.
    pub fn as_payload(&self) -> (r: Option<(&String, &AttachmentValue, &Option<String>)>)
        ensures
            self matches Attachment::Payload { name, value, media_type } ==> r == Some((name, value, media_type)),
            self is Note ==> r is None,
    {
        match self {
            Attachment::Payload { name, value, media_type } => Some((name, value, media_type)),
            Attachment::Note { .. } => None,
        }
    }
}

/// Key-value context of a report, kept sorted by key with no key twice.
#[derive(Debug, PartialEq)]
pub struct ContextMap {
    entries: Vec<(String, ContextValue)>,
}

/// Keys strictly increasing.
pub open spec fn keys_sorted(entries: Seq<(String, ContextValue)>) -> bool {
    forall|i: int, j: int| 0 <= i < j < entries.len() ==> seq_lt(#[trigger] entries[i].0@, #[trigger] entries[j].0@)
}

/// Whether `a` sorts strictly before `b`.
pub fn str_lt(a: &str, b: &str) -> (r: bool)
    ensures
        r == seq_lt(a@, b@),
{
    let n = a.unicode_len();
    let m = b.unicode_len();
    let mut i: usize = 0;
    proof {
        assert(a@.skip(0) =~= a@);
        assert(b@.skip(0) =~= b@);
    }
    while i < n && i < m
        invariant
            n == a@.len(),
            m == b@.len(),
            i <= n,
            i <= m,
            a@.take(i as int) =~= b@.take(i as int),
            seq_lt(a@, b@) == seq_lt(a@.skip(i as int), b@.skip(i as int)),
        decreases n - i,
    {
        let ca = a.get_char(i);
        let cb = b.get_char(i);
        if ca != cb {
            return ca < cb;
        }
        proof {
            assert(a@.skip(i as int).skip(1) =~= a@.skip(i as int + 1));
            assert(b@.skip(i as int).skip(1) =~= b@.skip(i as int + 1));
            assert(a@.take(i as int + 1) =~= a@.take(i as int).push(ca));
            assert(b@.take(i as int + 1) =~= b@.take(i as int).push(cb));
        }
        i = i + 1;
    }
    i < m
}

/// The value stored under `key`.
#[verifier::opaque]
pub open spec fn context_lookup(entries: Seq<(String, ContextValue)>, key: Seq<char>) -> Option<ContextValue>
    decreases entries.len(),
{
    if entries.len() == 0 {
        None
    } else if entries.last().0@ == key {
        Some(entries.last().1)
    } else {
        context_lookup(entries.drop_last(), key)
    }
}

impl ContextMap {
    /// The entries in key order.
    pub closed spec fn entries(&self) -> Seq<(String, ContextValue)> {
        self.entries@
    }

    #[verifier::type_invariant]
    closed spec fn sorted(&self) -> bool {
        keys_sorted(self.entries@)
    }

    /// An empty map.
    pub fn new() -> (r: Self)
        ensures
            r.entries().len() == 0,
    {
        ContextMap { entries: Vec::new() }
    }

    /// Whether the map holds no entry.
    pub fn is_empty(&self) -> (r: bool)
        ensures
            r == (self.entries().len() == 0),
    {
        self.entries.len() == 0
    }

    /// How many entries the map holds.
    pub fn len(&self) -> (r: usize)
        ensures
            r == self.entries().len(),
    {
        self.entries.len()
    }

    /// The entries, sorted by key, each key once.
    pub fn sorted_entries(&self) -> (r: &Vec<(String, ContextValue)>)
        ensures
            r@ == self.entries(),
            keys_sorted(r@),
    {
        proof {
            use_type_invariant(self);
        }
        &self.entries
    }

    /// Stores `value` under `key`, replacing a value stored there before;
    /// the entries stay sorted by key.
    pub fn insert(&mut self, key: String, value: ContextValue)
        ensures
            keys_sorted(old(self).entries()),
            stored_under_key(old(self).entries(), final(self).entries(), (key, value)),
            context_lookup(final(self).entries(), key@) == Some(value),
            forall|k: Seq<char>| k != key@ ==> #[trigger] context_lookup(final(self).entries(), k) == context_lookup(old(self).entries(), k),
    {
        proof {
            use_type_invariant(&*self);
        }
        let mut entries: Vec<(String, ContextValue)> = Vec::new();
        std::mem::swap(&mut entries, &mut self.entries);
        let ghost old_entries = entries@;
        let n = entries.len();
        let mut i: usize = 0;
        while i < n
            invariant
                n == entries@.len(),
                entries@ == old_entries,
                keys_sorted(old_entries),
                i <= n,
                forall|j: int| 0 <= j < i ==> seq_lt(#[trigger] old_entries[j].0@, key@),
            ensures
                n == entries@.len(),
                entries@ == old_entries,
                i <= n,
                forall|j: int| 0 <= j < i ==> seq_lt(#[trigger] old_entries[j].0@, key@),
                i < n ==> !seq_lt(old_entries[i as int].0@, key@),
            decreases n - i,
        {
            if !str_lt(entries[i].0.as_str(), key.as_str()) {
                break;
            }
            i = i + 1;
        }
        let ghost pair = (key, value);
        if i < n && str_eq_keys(&entries[i].0, &key) {
            entries.set(i, (key, value));
            proof {
                assert(entries@ =~= old_entries.update(i as int, pair));
                lemma_context_replace(old_entries, i as int, pair);
            }
        } else {
            entries.insert(i, (key, value));
            proof {
                assert(entries@ =~= old_entries.insert(i as int, pair));
                lemma_insert_sorted(old_entries, i as int, pair);
                lemma_context_insert(old_entries, i as int, pair);
            }
        }
        proof {
            lemma_stored_lookup(old_entries, entries@, pair);
        }
        self.entries = entries;
    }
}

/// What a lookup finds is an entry of the map, and when it finds nothing no
/// entry has the key.
pub proof fn lemma_lookup_entry(e: Seq<(String, ContextValue)>, k: Seq<char>)
    ensures
        context_lookup(e, k) matches Some(v) ==> exists|i: int| 0 <= i < e.len() && e[i].0@ == k && #[trigger] e[i].1 == v,
        context_lookup(e, k) is None ==> forall|i: int| 0 <= i < e.len() ==> (#[trigger] e[i]).0@ != k,
    decreases e.len(),
{
    reveal(context_lookup);
    if e.len() > 0 {
        lemma_lookup_entry(e.drop_last(), k);
        if e.last().0@ != k {
            if context_lookup(e, k) is Some {
                let v = context_lookup(e, k)->0;
                let i = choose|i: int| 0 <= i < e.drop_last().len() && e.drop_last()[i].0@ == k && #[trigger] e.drop_last()[i].1 == v;
                assert(e[i] == e.drop_last()[i]);
            } else {
                assert forall|i: int| 0 <= i < e.len() implies (#[trigger] e[i]).0@ != k by {
                    if i < e.len() - 1 {
                        assert(e[i] == e.drop_last()[i]);
                    }
                }
            }
        } else {
            assert(e[e.len() - 1].1 == e.last().1);
        }
    }
}

/// In a map sorted by key, the entry holding a key is what a lookup finds.
pub proof fn lemma_lookup_sorted(e: Seq<(String, ContextValue)>, i: int)
    requires
        keys_sorted(e),
        0 <= i < e.len(),
    ensures
        context_lookup(e, e[i].0@) == Some(e[i].1),
    decreases e.len(),
{
    reveal(context_lookup);
    if i < e.len() - 1 {
        assert(seq_lt(e[i].0@, e[e.len() - 1].0@));
        if e.last().0@ == e[i].0@ {
            lemma_seq_lt_irrefl(e[i].0@);
        }
        assert(keys_sorted(e.drop_last()));
        assert(e.drop_last()[i] == e[i]);
        lemma_lookup_sorted(e.drop_last(), i);
    }
}

/// After storing a pair under its key, a lookup of that key finds its value
/// and a lookup of any other key finds what it found before.
pub proof fn lemma_stored_lookup(old: Seq<(String, ContextValue)>, f: Seq<(String, ContextValue)>, pair: (String, ContextValue))
    requires
        stored_under_key(old, f, pair),
    ensures
        context_lookup(f, pair.0@) == Some(pair.1),
        forall|k: Seq<char>| k != pair.0@ ==> #[trigger] context_lookup(f, k) == context_lookup(old, k),
{
    let kk = choose|kk: int| 0 <= kk < f.len() && f[kk] == pair;
    lemma_lookup_sorted(f, kk);
    assert forall|k: Seq<char>| k != pair.0@ implies #[trigger] context_lookup(f, k) == context_lookup(old, k) by {
        lemma_lookup_entry(old, k);
        lemma_lookup_entry(f, k);
        match context_lookup(old, k) {
            Some(v) => {
                let j = choose|j: int| 0 <= j < old.len() && old[j].0@ == k && #[trigger] old[j].1 == v;
                assert(old[j].0@ != pair.0@);
                let m = choose|m: int| 0 <= m < f.len() && f[m] == #[trigger] old[j];
                lemma_lookup_sorted(f, m);
            },
            None => {
                match context_lookup(f, k) {
                    Some(w) => {
                        let m = choose|m: int| 0 <= m < f.len() && f[m].0@ == k && #[trigger] f[m].1 == w;
                        assert(f[m].0@ != pair.0@);
                        let j = choose|j: int| 0 <= j < old.len() && old[j] == #[trigger] f[m];
                        assert(old[j].0@ == k);
                    },
                    None => {},
                }
            },
        }
    }
}

/// `f` is `old` with `pair` stored under its key: sorted, holding the pair,
/// and holding exactly the entries of `old` with other keys.
pub open spec fn stored_under_key(old: Seq<(String, ContextValue)>, f: Seq<(String, ContextValue)>, pair: (String, ContextValue)) -> bool {
    &&& keys_sorted(f)
    &&& exists|k: int| 0 <= k < f.len() && f[k] == pair
    &&& forall|j: int| 0 <= j < old.len() && old[j].0@ != pair.0@
        ==> exists|k: int| 0 <= k < f.len() && f[k] == #[trigger] old[j]
    &&& forall|k: int| 0 <= k < f.len() && f[k].0@ != pair.0@
        ==> exists|j: int| 0 <= j < old.len() && old[j] == #[trigger] f[k]
}

/// Storing a pair in place of the entry with the same key keeps the entries
/// sorted, holds the pair, and keeps every entry with another key.
proof fn lemma_context_replace(old_entries: Seq<(String, ContextValue)>, i: int, pair: (String, ContextValue))
    requires
        keys_sorted(old_entries),
        0 <= i < old_entries.len(),
        old_entries[i].0@ == pair.0@,
    ensures
        stored_under_key(old_entries, old_entries.update(i, pair), pair),
{
    let f = old_entries.update(i, pair);
    assert forall|a: int, b: int| 0 <= a < b < f.len() implies seq_lt(#[trigger] f[a].0@, #[trigger] f[b].0@) by {
        assert(f[a].0@ == old_entries[a].0@);
        assert(f[b].0@ == old_entries[b].0@);
    }
    assert(f[i] == pair);
    assert forall|j: int| 0 <= j < old_entries.len() && old_entries[j].0@ != pair.0@
        implies exists|k: int| 0 <= k < f.len() && f[k] == #[trigger] old_entries[j] by {
        assert(f[j] == old_entries[j]);
    }
    assert forall|k: int| 0 <= k < f.len() && f[k].0@ != pair.0@
        implies exists|j: int| 0 <= j < old_entries.len() && old_entries[j] == #[trigger] f[k] by {
        assert(old_entries[k] == f[k]);
    }
}

/// Inserting a pair at its place in key order keeps the keys sorted.
#[verifier::rlimit(40)]
proof fn lemma_insert_sorted(old_entries: Seq<(String, ContextValue)>, i: int, pair: (String, ContextValue))
    requires
        keys_sorted(old_entries),
        0 <= i <= old_entries.len(),
        forall|j: int| 0 <= j < i ==> seq_lt(#[trigger] old_entries[j].0@, pair.0@),
        i < old_entries.len() ==> !seq_lt(old_entries[i].0@, pair.0@) && old_entries[i].0@ != pair.0@,
    ensures
        keys_sorted(old_entries.insert(i, pair)),
{
    let f = old_entries.insert(i, pair);
    let key = pair.0@;
    if i < old_entries.len() {
        lemma_seq_lt_total(old_entries[i].0@, key);
    }
    assert forall|a: int, b: int| 0 <= a < b < f.len() implies seq_lt(#[trigger] f[a].0@, #[trigger] f[b].0@) by {
        if b < i {
            assert(f[a] == old_entries[a] && f[b] == old_entries[b]);
        } else if b == i {
            assert(f[a] == old_entries[a]);
        } else if a < i {
            assert(f[a] == old_entries[a]);
            assert(f[b] == old_entries[b - 1]);
            if b - 1 > i {
                assert(seq_lt(old_entries[i].0@, old_entries[b - 1].0@));
                lemma_seq_lt_trans(key, old_entries[i].0@, old_entries[b - 1].0@);
            }
            lemma_seq_lt_trans(old_entries[a].0@, key, old_entries[b - 1].0@);
        } else if a == i {
            assert(f[b] == old_entries[b - 1]);
            if b - 1 > i {
                assert(seq_lt(old_entries[i].0@, old_entries[b - 1].0@));
                lemma_seq_lt_trans(key, old_entries[i].0@, old_entries[b - 1].0@);
            }
        } else {
            assert(f[a] == old_entries[a - 1]);
            assert(f[b] == old_entries[b - 1]);
        }
    }
}

/// Inserting a pair at its place in key order keeps the entries sorted,
/// holds the pair, and keeps every other entry.
proof fn lemma_context_insert(old_entries: Seq<(String, ContextValue)>, i: int, pair: (String, ContextValue))
    requires
        keys_sorted(old_entries.insert(i, pair)),
        0 <= i <= old_entries.len(),
    ensures
        stored_under_key(old_entries, old_entries.insert(i, pair), pair),
{
    let f = old_entries.insert(i, pair);
    let key = pair.0@;
    assert(f[i] == pair);
    assert forall|j: int| 0 <= j < old_entries.len() && old_entries[j].0@ != key
        implies exists|k: int| 0 <= k < f.len() && f[k] == #[trigger] old_entries[j] by {
        if j < i {
            assert(f[j] == old_entries[j]);
        } else {
            assert(f[j + 1] == old_entries[j]);
        }
    }
    assert forall|k: int| 0 <= k < f.len() && f[k].0@ != key
        implies exists|j: int| 0 <= j < old_entries.len() && old_entries[j] == #[trigger] f[k] by {
        if k < i {
            assert(old_entries[k] == f[k]);
        } else {
            assert(k != i);
            assert(old_entries[k - 1] == f[k]);
        }
    }
}

proof fn lemma_seq_lt_irrefl(a: Seq<char>)
    ensures
        !seq_lt(a, a),
    decreases a.len(),
{
    if a.len() > 0 {
        lemma_seq_lt_irrefl(a.skip(1));
    }
}

/// Two different character sequences are ordered one way or the other.
pub proof fn lemma_seq_lt_total(a: Seq<char>, b: Seq<char>)
    ensures
        a == b || seq_lt(a, b) || seq_lt(b, a),
    decreases a.len(),
{
    if a.len() > 0 && b.len() > 0 && a[0] == b[0] {
        lemma_seq_lt_total(a.skip(1), b.skip(1));
        if a.skip(1) == b.skip(1) {
            assert(a =~= seq![a[0]] + a.skip(1));
            assert(b =~= seq![b[0]] + b.skip(1));
        }
    }
    if a.len() == 0 && b.len() == 0 {
        assert(a =~= b);
    }
    if a.len() > 0 && b.len() > 0 && a[0] != b[0] {
        assert(a[0] < b[0] || b[0] < a[0]);
    }
}

/// The order of character sequences is transitive.
pub proof fn lemma_seq_lt_trans(a: Seq<char>, b: Seq<char>, c: Seq<char>)
    requires
        seq_lt(a, b),
        seq_lt(b, c),
    ensures
        seq_lt(a, c),
    decreases a.len(),
{
    if a.len() > 0 && b.len() > 0 && c.len() > 0 && a[0] == b[0] && b[0] == c[0] {
        lemma_seq_lt_trans(a.skip(1), b.skip(1), c.skip(1));
    }
}

fn str_eq_keys(a: &String, b: &String) -> (r: bool)
    ensures
        r == (a@ == b@),
{
    crate::text::str_eq(a.as_str(), b.as_str())
}

} // verus!
