//! What the `set!`, `union!` and `#[derive(Error)]` code generators decide:
//! display templates, constructor names, derive lists, the variants of a
//! union, and which sets convert into which.

use vstd::prelude::*;
use crate::text::{append_str, ascii_lower, ascii_lower_seq, char_to_ascii_lower, push_char, str_eq};

verus! {

pub open spec fn is_ascii_upper(c: char) -> bool {
    'A' <= c && c <= 'Z'
}

pub open spec fn is_ascii_lower(c: char) -> bool {
    'a' <= c && c <= 'z'
}

/// The output for the character at `idx`: an upper-case letter becomes
/// lower case, preceded by `_` when it follows a lower-case letter or starts
/// a lower-case run after the first position.
pub open spec fn snake_piece(s: Seq<char>, idx: int) -> Seq<char> {
    let c = s[idx];
    if is_ascii_upper(c) {
        let sep = idx > 0 && (is_ascii_lower(s[idx - 1]) || (idx + 1 < s.len() && is_ascii_lower(s[idx + 1])));
        (if sep { seq!['_'] } else { Seq::empty() }) + seq![ascii_lower(c)]
    } else {
        seq![c]
    }
}

/// The snake-case form of the first `n` characters of `s`.
pub open spec fn snake_prefix(s: Seq<char>, n: int) -> Seq<char>
    decreases n,
{
    if n <= 0 { Seq::empty() } else { snake_prefix(s, n - 1) + snake_piece(s, n - 1) }
}

pub open spec fn snake_case(s: Seq<char>) -> Seq<char> {
    snake_prefix(s, s.len() as int)
}

/// The characters of `s` other than `_`, in order.
pub open spec fn strip_underscores(s: Seq<char>) -> Seq<char>
    decreases s.len(),
{
    if s.len() == 0 {
        Seq::empty()
    } else if s.last() == '_' {
        strip_underscores(s.drop_last())
    } else {
        strip_underscores(s.drop_last()).push(s.last())
    }
}

proof fn lemma_strip_concat(a: Seq<char>, b: Seq<char>)
    ensures
        strip_underscores(a + b) == strip_underscores(a) + strip_underscores(b),
    decreases b.len(),
{
    if b.len() == 0 {
        assert(a + b =~= a);
        assert(strip_underscores(a) + strip_underscores(b) =~= strip_underscores(a));
    } else {
        lemma_strip_concat(a, b.drop_last());
        assert((a + b).drop_last() =~= a + b.drop_last());
        assert((a + b).last() == b.last());
        if b.last() != '_' {
            assert(strip_underscores(a) + strip_underscores(b.drop_last()).push(b.last())
                =~= (strip_underscores(a) + strip_underscores(b.drop_last())).push(b.last()));
        }
    }
}

proof fn lemma_strip_one(c: char)
    ensures
        strip_underscores(seq![c]) == (if c == '_' { Seq::<char>::empty() } else { seq![c] }),
{
    let e = Seq::<char>::empty();
    assert(seq![c].drop_last() =~= e);
    assert(seq![c].last() == c);
    assert(strip_underscores(e) == e);
    assert(e.push(c) =~= seq![c]);
}

proof fn lemma_lower_of_upper(c: char)
    requires
        is_ascii_upper(c),
    ensures
        is_ascii_lower(ascii_lower(c)),
        ascii_lower(c) != '_',
{
    assert('a' as u32 == 97u32);
    assert('z' as u32 == 122u32);
    assert('A' as u32 == 65u32);
    assert('Z' as u32 == 90u32);
}

proof fn lemma_snake_prefix_law(s: Seq<char>, n: int)
    requires
        0 <= n <= s.len(),
    ensures
        forall|i: int| 0 <= i < snake_prefix(s, n).len() ==> !is_ascii_upper(#[trigger] snake_prefix(s, n)[i]),
        strip_underscores(snake_prefix(s, n)) == strip_underscores(ascii_lower_seq(s).take(n)),
    decreases n,
{
    if n == 0 {
        assert(ascii_lower_seq(s).take(0) =~= Seq::<char>::empty());
    } else {
        lemma_snake_prefix_law(s, n - 1);
        let prev = snake_prefix(s, n - 1);
        let piece = snake_piece(s, n - 1);
        let c = s[n - 1];
        lemma_strip_concat(prev, piece);
        assert(ascii_lower_seq(s).take(n) =~= ascii_lower_seq(s).take(n - 1) + seq![ascii_lower(c)]);
        lemma_strip_concat(ascii_lower_seq(s).take(n - 1), seq![ascii_lower(c)]);
        lemma_strip_one(ascii_lower(c));
        if is_ascii_upper(c) {
            lemma_lower_of_upper(c);
            let sep = n - 1 > 0 && (is_ascii_lower(s[n - 2]) || (n < s.len() && is_ascii_lower(s[n])));
            if sep {
                assert(piece =~= seq!['_'] + seq![ascii_lower(c)]);
                lemma_strip_concat(seq!['_'], seq![ascii_lower(c)]);
                lemma_strip_one('_');
                assert(strip_underscores(piece) =~= seq![ascii_lower(c)]);
            } else {
                assert(piece =~= seq![ascii_lower(c)]);
            }
            assert forall|i: int| 0 <= i < piece.len() implies !is_ascii_upper(#[trigger] piece[i]) by {}
        } else {
            assert(ascii_lower(c) == c);
            assert(piece =~= seq![c]);
        }
        assert forall|i: int| 0 <= i < snake_prefix(s, n).len() implies !is_ascii_upper(#[trigger] snake_prefix(s, n)[i]) by {
            if i < prev.len() {
                assert(snake_prefix(s, n)[i] == prev[i]);
            } else {
                assert(snake_prefix(s, n)[i] == piece[i - prev.len()]);
            }
        }
    }
}

/// The snake-case form of a name has no upper-case letter left, and once
/// every `_` is removed it is the lower-cased name with every `_` removed.
pub proof fn lemma_snake_case_law(s: Seq<char>)
    ensures
        forall|i: int| 0 <= i < snake_case(s).len() ==> !is_ascii_upper(#[trigger] snake_case(s)[i]),
        strip_underscores(snake_case(s)) == strip_underscores(ascii_lower_seq(s)),
{
    lemma_snake_prefix_law(s, s.len() as int);
    assert(ascii_lower_seq(s).take(s.len() as int) =~= ascii_lower_seq(s));
}

/// The snake-case form of a camel-case name, as constructor names use it.
pub fn to_snake_case(input: &str) -> (r: String)
    ensures
        r@ == snake_case(input@),
{
    let n = input.unicode_len();
    let mut out = String::new();
    let mut idx: usize = 0;
    while idx < n
        invariant
            n == input@.len(),
            idx <= n,
            out@ == snake_prefix(input@, idx as int),
        decreases n - idx,
    {
        let ch = input.get_char(idx);
        let ghost before = out@;
        if 'A' <= ch && ch <= 'Z' {
            if idx > 0 {
                let prev = input.get_char(idx - 1);
                let next_is_lower = if idx + 1 < n {
                    let nx = input.get_char(idx + 1);
                    'a' <= nx && nx <= 'z'
                } else {
                    false
                };
                if ('a' <= prev && prev <= 'z') || next_is_lower {
                    push_char(&mut out, '_');
                }
            }
            push_char(&mut out, char_to_ascii_lower(ch));
        } else {
            push_char(&mut out, ch);
        }
        proof {
            assert(out@ =~= before + snake_piece(input@, idx as int));
        }
        idx = idx + 1;
    }
    out
}

/// Whether `s` occurs in `names`.
pub open spec fn names_have(names: Seq<String>, s: Seq<char>) -> bool {
    exists|i: int| 0 <= i < names.len() && #[trigger] names[i]@ == s
}

fn position_of(names: &Vec<String>, s: &str) -> (r: Option<usize>)
    ensures
        r matches Some(i) ==> i < names@.len() && names@[i as int]@ == s@
            && forall|j: int| 0 <= j < i ==> names@[j]@ != s@,
        r is None ==> !names_have(names@, s@),
{
    let mut i: usize = 0;
    while i < names.len()
        invariant
            i <= names@.len(),
            forall|j: int| 0 <= j < i ==> names@[j]@ != s@,
        decreases names@.len() - i,
    {
        if str_eq(names[i].as_str(), s) {
            return Some(i);
        }
        i = i + 1;
    }
    None
}

/// The derive list of a generated enum: each derive once, in first order,
/// with `Debug` added at the end when it is missing.
pub open spec fn merged_derives(derives: Seq<Seq<char>>) -> Seq<Seq<char>> {
    let d = dedup_names(derives, derives.len() as int);
    if d.contains("Debug"@) { d } else { d.push("Debug"@) }
}

/// The first `n` names without repeats, in first-occurrence order.
pub open spec fn dedup_names(names: Seq<Seq<char>>, n: int) -> Seq<Seq<char>>
    decreases n,
{
    if n <= 0 {
        Seq::empty()
    } else {
        let d = dedup_names(names, n - 1);
        if d.contains(names[n - 1]) { d } else { d.push(names[n - 1]) }
    }
}

/// Merges derive lists: each derive once, `Debug` always present.
pub fn merge_debug_derive(derives: &Vec<String>) -> (r: Vec<String>)
    ensures
        r@.map_values(|s: String| s@) == merged_derives(derives@.map_values(|s: String| s@)),
{
    let ghost d = derives@.map_values(|s: String| s@);
    let mut out: Vec<String> = Vec::new();
    let mut i: usize = 0;
    while i < derives.len()
        invariant
            i <= derives@.len(),
            d == derives@.map_values(|s: String| s@),
            out@.map_values(|s: String| s@) == dedup_names(d, i as int),
        decreases derives@.len() - i,
    {
        let ghost before = out@.map_values(|s: String| s@);
        match position_of(&out, derives[i].as_str()) {
            Some(k) => {
                proof {
                    assert(before[k as int] == d[i as int]);
                    assert(before.contains(d[i as int]));
                }
            },
            None => {
                out.push(derives[i].clone());
                proof {
                    assert(!before.contains(d[i as int])) by {
                        if before.contains(d[i as int]) {
                            let k = choose|k: int| 0 <= k < before.len() && before[k] == d[i as int];
                            assert(out@[k]@ == d[i as int]);
                        }
                    }
                    assert(out@.map_values(|s: String| s@) =~= before.push(d[i as int]));
                }
            },
        }
        i = i + 1;
    }
    proof {
        assert(derives@.map_values(|s: String| s@).len() == derives@.len());
    }
    let ghost deduped = out@.map_values(|s: String| s@);
    match position_of(&out, "Debug") {
        Some(k) => {
            proof {
                assert(deduped[k as int] == "Debug"@);
                assert(deduped.contains("Debug"@));
            }
        },
        None => {
            proof {
                assert(!deduped.contains("Debug"@)) by {
                    if deduped.contains("Debug"@) {
                        let k = choose|k: int| 0 <= k < deduped.len() && deduped[k] == "Debug"@;
                        assert(out@[k]@ == "Debug"@);
                    }
                }
            }
            out.push(crate::text::str_to_string("Debug"));
            proof {
                assert(out@.map_values(|s: String| s@) =~= deduped.push("Debug"@));
            }
        },
    }
    out
}

/// A piece of a compiled display template: a literal character, or the
/// value of replacement number `i`.
#[derive(Debug, Clone, Copy, PartialEq, Eq, Structural)]
pub enum TemplatePiece {
    Literal(char),
    Field(usize),
}

/// Why a display template was refused.
#[derive(Debug, PartialEq, Eq)]
pub enum TemplateError {
    /// A `{` without a closing `}`.
    Unclosed,
    /// `{}` with no name inside.
    EmptyPlaceholder,
    /// A name that is neither a field nor a tuple index.
    UnknownPlaceholder(String),
    /// A `}` that is not part of `}}`.
    UnmatchedClose,
}

/// The plain form of a template error.
pub enum TemplateFault {
    Unclosed,
    EmptyPlaceholder,
    UnknownPlaceholder(Seq<char>),
    UnmatchedClose,
}

pub open spec fn fault_of(e: TemplateError) -> TemplateFault {
    match e {
        TemplateError::Unclosed => TemplateFault::Unclosed,
        TemplateError::EmptyPlaceholder => TemplateFault::EmptyPlaceholder,
        TemplateError::UnknownPlaceholder(s) => TemplateFault::UnknownPlaceholder(s@),
        TemplateError::UnmatchedClose => TemplateFault::UnmatchedClose,
    }
}

/// The index of the first `}` at or after `i`, or the length.
pub open spec fn next_close(t: Seq<char>, i: int) -> int
    decreases t.len() - i,
{
    if i >= t.len() { t.len() as int } else if t[i] == '}' { i } else { next_close(t, i + 1) }
}

/// The first index at which `names` holds `key`.
pub open spec fn first_index(names: Seq<Seq<char>>, key: Seq<char>) -> int {
    choose|i: int| 0 <= i < names.len() && names[i] == key && forall|j: int| 0 <= j < i ==> names[j] != key
}

/// The pieces of template `t` from position `i`: `{{` and `}}` stand for a
/// brace, `{name}` for the replacement of that name; a stray `}`, an
/// unclosed `{`, an empty or unknown name are errors.
pub open spec fn compile_from(t: Seq<char>, i: int, names: Seq<Seq<char>>) -> Result<Seq<TemplatePiece>, TemplateFault>
    decreases t.len() - i,
{
    if i >= t.len() || i < 0 {
        Ok(Seq::empty())
    } else if t[i] == '{' {
        if i + 1 < t.len() && t[i + 1] == '{' {
            match compile_from(t, i + 2, names) {
                Ok(rest) => Ok(seq![TemplatePiece::Literal('{')] + rest),
                Err(e) => Err(e),
            }
        } else {
            let end = next_close(t, i + 1);
            if end >= t.len() || end < i + 1 {
                Err(TemplateFault::Unclosed)
            } else {
                let key = t.subrange(i + 1, end);
                if key.len() == 0 {
                    Err(TemplateFault::EmptyPlaceholder)
                } else if !names.contains(key) {
                    Err(TemplateFault::UnknownPlaceholder(key))
                } else {
                    match compile_from(t, end + 1, names) {
                        Ok(rest) => Ok(seq![TemplatePiece::Field(first_index(names, key) as usize)] + rest),
                        Err(e) => Err(e),
                    }
                }
            }
        }
    } else if t[i] == '}' {
        if i + 1 < t.len() && t[i + 1] == '}' {
            match compile_from(t, i + 2, names) {
                Ok(rest) => Ok(seq![TemplatePiece::Literal('}')] + rest),
                Err(e) => Err(e),
            }
        } else {
            Err(TemplateFault::UnmatchedClose)
        }
    } else {
        match compile_from(t, i + 1, names) {
            Ok(rest) => Ok(seq![TemplatePiece::Literal(t[i])] + rest),
            Err(e) => Err(e),
        }
    }
}

proof fn lemma_next_close(t: Seq<char>, i: int)
    requires
        0 <= i <= t.len(),
    ensures
        i <= next_close(t, i) <= t.len(),
        next_close(t, i) < t.len() ==> t[next_close(t, i)] == '}',
        forall|k: int| i <= k < next_close(t, i) ==> t[k] != '}',
    decreases t.len() - i,
{
    if i < t.len() && t[i] != '}' {
        lemma_next_close(t, i + 1);
    }
}

/// Compiles a display template against the names of the replacements.
pub fn compile_display_template(template: &str, names: &Vec<String>) -> (r: Result<Vec<TemplatePiece>, TemplateError>)
    ensures
        ({
            let spec_r = compile_from(template@, 0, names@.map_values(|s: String| s@));
            &&& (r is Ok <==> spec_r is Ok)
            &&& (r matches Ok(p) ==> p@ == spec_r->Ok_0)
            &&& (r matches Err(e) ==> fault_of(e) == spec_r->Err_0)
        }),
{
    let ghost nm = names@.map_values(|s: String| s@);
    let n = template.unicode_len();
    let mut rev: Vec<(usize, TemplatePiece)> = Vec::new();
    let mut pieces: Vec<TemplatePiece> = Vec::new();
    let mut i: usize = 0;
    // pieces@ + compile_from(i) == compile_from(0) whenever the latter is Ok;
    // an error at i is the error of the whole template.
    while i < n
        invariant
            n == template@.len(),
            i <= n,
            nm == names@.map_values(|s: String| s@),
            forall|p: Seq<TemplatePiece>| #[trigger] compile_from(template@, i as int, nm) == Ok::<Seq<TemplatePiece>, TemplateFault>(p)
                ==> compile_from(template@, 0, nm) == Ok::<Seq<TemplatePiece>, TemplateFault>(pieces@ + p),
            forall|e: TemplateFault| #[trigger] compile_from(template@, i as int, nm) == Err::<Seq<TemplatePiece>, TemplateFault>(e)
                ==> compile_from(template@, 0, nm) == Err::<Seq<TemplatePiece>, TemplateFault>(e),
        decreases n - i,
    {
        let c = template.get_char(i);
        if c == '{' {
            if i + 1 < n && template.get_char(i + 1) == '{' {
                proof {
                    let r2 = compile_from(template@, i + 2, nm);
                    match r2 {
                        Ok(rest) => {
                            assert(compile_from(template@, i as int, nm) == Ok::<Seq<TemplatePiece>, TemplateFault>(seq![TemplatePiece::Literal('{')] + rest));
                            assert(pieces@.push(TemplatePiece::Literal('{')) + rest =~= pieces@ + (seq![TemplatePiece::Literal('{')] + rest));
                        },
                        Err(e) => {},
                    }
                }
                pieces.push(TemplatePiece::Literal('{'));
                i = i + 2;
            } else {
                let start = i + 1;
                let mut end = start;
                proof { lemma_next_close(template@, start as int); }
                while end < n && template.get_char(end) != '}'
                    invariant
                        n == template@.len(),
                        start <= end <= n,
                        end <= next_close(template@, start as int),
                        next_close(template@, start as int) <= n,
                        next_close(template@, start as int) < n ==> template@[next_close(template@, start as int)] == '}',
                        forall|k: int| start <= k < next_close(template@, start as int) ==> template@[k] != '}',
                    decreases n - end,
                {
                    end = end + 1;
                }
                if end >= n {
                    return Err(TemplateError::Unclosed);
                }
                let key_str = template.substring_char(start, end);
                let key = crate::text::str_to_string(key_str);
                if start == end {
                    return Err(TemplateError::EmptyPlaceholder);
                }
                match position_of(names, key.as_str()) {
                    None => {
                        proof {
                            assert(!nm.contains(key@)) by {
                                if nm.contains(key@) {
                                    let k = choose|k: int| 0 <= k < nm.len() && nm[k] == key@;
                                    assert(names@[k]@ == key@);
                                }
                            }
                        }
                        return Err(TemplateError::UnknownPlaceholder(key));
                    },
                    Some(idx) => {
                        proof {
                            assert(nm[idx as int] == key@);
                            assert(nm.contains(key@));
                            let fi = first_index(nm, key@);
                            assert(0 <= idx < nm.len() && nm[idx as int] == key@ && forall|j: int| 0 <= j < idx ==> nm[j] != key@);
                            assert(fi == idx) by {
                                if fi < idx { assert(nm[fi] != key@); }
                                if fi > idx { assert(nm[idx as int] != key@); }
                            }
                            let r2 = compile_from(template@, end + 1, nm);
                            match r2 {
                                Ok(rest) => {
                                    assert(pieces@.push(TemplatePiece::Field(idx)) + rest =~= pieces@ + (seq![TemplatePiece::Field(idx)] + rest));
                                },
                                Err(e) => {},
                            }
                        }
                        pieces.push(TemplatePiece::Field(idx));
                        i = end + 1;
                    },
                }
            }
        } else if c == '}' {
            if i + 1 < n && template.get_char(i + 1) == '}' {
                proof {
                    let r2 = compile_from(template@, i + 2, nm);
                    match r2 {
                        Ok(rest) => {
                            assert(pieces@.push(TemplatePiece::Literal('}')) + rest =~= pieces@ + (seq![TemplatePiece::Literal('}')] + rest));
                        },
                        Err(e) => {},
                    }
                }
                pieces.push(TemplatePiece::Literal('}'));
                i = i + 2;
            } else {
                return Err(TemplateError::UnmatchedClose);
            }
        } else {
            proof {
                let r2 = compile_from(template@, i + 1, nm);
                match r2 {
                    Ok(rest) => {
                        assert(pieces@.push(TemplatePiece::Literal(c)) + rest =~= pieces@ + (seq![TemplatePiece::Literal(c)] + rest));
                    },
                    Err(e) => {},
                }
            }
            pieces.push(TemplatePiece::Literal(c));
            i = i + 1;
        }
    }
    proof {
        assert(compile_from(template@, i as int, nm) == Ok::<Seq<TemplatePiece>, TemplateFault>(Seq::empty()));
        assert(pieces@ + Seq::<TemplatePiece>::empty() =~= pieces@);
    }
    Ok(pieces)
}

/// The text the pieces produce with the given replacement values.
pub open spec fn fill_pieces(pieces: Seq<TemplatePiece>, values: Seq<Seq<char>>) -> Seq<char>
    decreases pieces.len(),
{
    if pieces.len() == 0 {
        Seq::empty()
    } else {
        fill_pieces(pieces.drop_last(), values) + match pieces.last() {
            TemplatePiece::Literal(c) => seq![c],
            TemplatePiece::Field(i) => values[i as int],
        }
    }
}

/// The format string the generated code writes: braces doubled, each
/// replacement as `{}`.
pub open spec fn format_string(pieces: Seq<TemplatePiece>) -> Seq<char>
    decreases pieces.len(),
{
    if pieces.len() == 0 {
        Seq::empty()
    } else {
        format_string(pieces.drop_last()) + match pieces.last() {
            TemplatePiece::Literal(c) => if c == '{' { seq!['{', '{'] } else if c == '}' { seq!['}', '}'] } else { seq![c] },
            TemplatePiece::Field(_) => seq!['{', '}'],
        }
    }
}

/// The replacement numbers in the order the pieces use them.
pub open spec fn field_order(pieces: Seq<TemplatePiece>) -> Seq<usize>
    decreases pieces.len(),
{
    if pieces.len() == 0 {
        Seq::empty()
    } else {
        let rest = field_order(pieces.drop_last());
        match pieces.last() {
            TemplatePiece::Literal(_) => rest,
            TemplatePiece::Field(i) => rest.push(i),
        }
    }
}

pub open spec fn fields_within(pieces: Seq<TemplatePiece>, n: nat) -> bool {
    forall|k: int| 0 <= k < pieces.len() ==> (#[trigger] pieces[k] matches TemplatePiece::Field(i) ==> i < n)
}

/// The text of compiled pieces with the given replacement values.
pub fn fill_template(pieces: &Vec<TemplatePiece>, values: &Vec<String>) -> (r: String)
    requires
        fields_within(pieces@, values@.len()),
    ensures
        r@ == fill_pieces(pieces@, values@.map_values(|s: String| s@)),
{
    let ghost vs = values@.map_values(|s: String| s@);
    let mut out = String::new();
    let mut k: usize = 0;
    while k < pieces.len()
        invariant
            k <= pieces@.len(),
            vs == values@.map_values(|s: String| s@),
            fields_within(pieces@, values@.len()),
            out@ == fill_pieces(pieces@.take(k as int), vs),
        decreases pieces@.len() - k,
    {
        proof {
            assert(pieces@.take(k as int + 1).drop_last() =~= pieces@.take(k as int));
            assert(pieces@.take(k as int + 1).last() == pieces@[k as int]);
        }
        match pieces[k] {
            TemplatePiece::Literal(c) => push_char(&mut out, c),
            TemplatePiece::Field(i) => {
                assert(pieces@[k as int] matches TemplatePiece::Field(j) ==> j < values@.len());
                append_str(&mut out, values[i].as_str());
            },
        }
        k = k + 1;
    }
    proof {
        assert(pieces@.take(pieces@.len() as int) =~= pieces@);
    }
    out
}

proof fn lemma_compile_fields_within(t: Seq<char>, i: int, names: Seq<Seq<char>>)
    ensures
        compile_from(t, i, names) matches Ok(p) ==> fields_within(p, names.len()),
    decreases t.len() - i,
{
    if 0 <= i < t.len() {
        if t[i] == '{' {
            if i + 1 < t.len() && t[i + 1] == '{' {
                lemma_compile_fields_within(t, i + 2, names);
                if let Ok(rest) = compile_from(t, i + 2, names) {
                    lemma_prepend_within(TemplatePiece::Literal('{'), rest, names.len());
                }
            } else {
                let end = next_close(t, i + 1);
                if !(end >= t.len() || end < i + 1) {
                    let key = t.subrange(i + 1, end);
                    if key.len() > 0 && names.contains(key) {
                        lemma_compile_fields_within(t, end + 1, names);
                        if let Ok(rest) = compile_from(t, end + 1, names) {
                            let w = choose|w: int| 0 <= w < names.len() && names[w] == key;
                            let fi = first_index(names, key);
                            assert(0 <= fi < names.len()) by {
                                lemma_first_index_exists(names, key, w);
                            }
                            lemma_prepend_within(TemplatePiece::Field(fi as usize), rest, names.len());
                        }
                    }
                }
            }
        } else if t[i] == '}' {
            if i + 1 < t.len() && t[i + 1] == '}' {
                lemma_compile_fields_within(t, i + 2, names);
                if let Ok(rest) = compile_from(t, i + 2, names) {
                    lemma_prepend_within(TemplatePiece::Literal('}'), rest, names.len());
                }
            }
        } else {
            lemma_compile_fields_within(t, i + 1, names);
            if let Ok(rest) = compile_from(t, i + 1, names) {
                lemma_prepend_within(TemplatePiece::Literal(t[i]), rest, names.len());
            }
        }
    }
}

proof fn lemma_prepend_within(x: TemplatePiece, rest: Seq<TemplatePiece>, n: nat)
    requires
        x matches TemplatePiece::Field(j) ==> j < n,
        fields_within(rest, n),
    ensures
        fields_within(seq![x] + rest, n),
{
    let p = seq![x] + rest;
    assert forall|k: int| 0 <= k < p.len() implies (#[trigger] p[k] matches TemplatePiece::Field(j) ==> j < n) by {
        if k > 0 {
            assert(p[k] == rest[k - 1]);
        }
    }
}

proof fn lemma_first_index_exists(names: Seq<Seq<char>>, key: Seq<char>, w: int)
    requires
        0 <= w < names.len(),
        names[w] == key,
    ensures
        exists|i: int| 0 <= i < names.len() && names[i] == key && forall|j: int| 0 <= j < i ==> names[j] != key,
    decreases w,
{
    if exists|j: int| 0 <= j < w && names[j] == key {
        let j = choose|j: int| 0 <= j < w && names[j] == key;
        lemma_first_index_exists(names, key, j);
    } else {
        assert(forall|j: int| 0 <= j < w ==> names[j] != key);
    }
}

/// The text a `#[display("...")]` template renders with the given field
/// names and values, or why the template is refused.
pub open spec fn display_text(t: Seq<char>, names: Seq<Seq<char>>, values: Seq<Seq<char>>) -> Result<Seq<char>, TemplateFault> {
    match compile_from(t, 0, names) {
        Ok(p) => Ok(fill_pieces(p, values)),
        Err(e) => Err(e),
    }
}

/// Renders a display template: compiles it against the field names, then
/// fills in the field values.
pub fn render_display(template: &str, names: &Vec<String>, values: &Vec<String>) -> (r: Result<String, TemplateError>)
    requires
        names@.len() == values@.len(),
    ensures
        ({
            let spec_r = display_text(template@, names@.map_values(|s: String| s@), values@.map_values(|s: String| s@));
            &&& (r is Ok <==> spec_r is Ok)
            &&& (r matches Ok(s) ==> s@ == spec_r->Ok_0)
            &&& (r matches Err(e) ==> fault_of(e) == spec_r->Err_0)
        }),
{
    match compile_display_template(template, names) {
        Ok(p) => {
            proof {
                lemma_compile_fields_within(template@, 0, names@.map_values(|s: String| s@));
            }
            Ok(fill_template(&p, values))
        },
        Err(e) => Err(e),
    }
}

/// The format string and argument order the generated `Display` writes.
pub fn render_display_template(template: &str, names: &Vec<String>) -> (r: Result<(String, Vec<usize>), TemplateError>)
    ensures
        ({
            let spec_r = compile_from(template@, 0, names@.map_values(|s: String| s@));
            &&& (r is Ok <==> spec_r is Ok)
            &&& (r matches Ok(out) ==> out.0@ == format_string(spec_r->Ok_0) && out.1@ == field_order(spec_r->Ok_0))
            &&& (r matches Err(e) ==> fault_of(e) == spec_r->Err_0)
        }),
{
    let pieces = match compile_display_template(template, names) {
        Ok(p) => p,
        Err(e) => return Err(e),
    };
    let mut fmt = String::new();
    let mut order: Vec<usize> = Vec::new();
    let mut k: usize = 0;
    while k < pieces.len()
        invariant
            k <= pieces@.len(),
            fmt@ == format_string(pieces@.take(k as int)),
            order@ == field_order(pieces@.take(k as int)),
        decreases pieces@.len() - k,
    {
        proof {
            assert(pieces@.take(k as int + 1).drop_last() =~= pieces@.take(k as int));
            assert(pieces@.take(k as int + 1).last() == pieces@[k as int]);
        }
        let ghost before = fmt@;
        match pieces[k] {
            TemplatePiece::Literal(c) => {
                if c == '{' {
                    push_char(&mut fmt, '{');
                    push_char(&mut fmt, '{');
                } else if c == '}' {
                    push_char(&mut fmt, '}');
                    push_char(&mut fmt, '}');
                } else {
                    push_char(&mut fmt, c);
                }
            },
            TemplatePiece::Field(i) => {
                push_char(&mut fmt, '{');
                push_char(&mut fmt, '}');
                order.push(i);
            },
        }
        proof {
            assert(fmt@ =~= format_string(pieces@.take(k as int + 1)));
        }
        k = k + 1;
    }
    proof {
        assert(pieces@.take(pieces@.len() as int) =~= pieces@);
    }
    Ok((fmt, order))
}

/// Reading a type path up to its end: how deep inside generic arguments
/// (`<...>`) the reading is, and the identifier of the last segment so far.
/// Outside generic arguments a `:` starts a new segment, a space is skipped
/// and any other character extends the identifier; generic arguments do not
/// count towards it.
pub open spec fn segment_state(p: Seq<char>) -> (nat, Seq<char>)
    decreases p.len(),
{
    if p.len() == 0 {
        (0, Seq::empty())
    } else {
        let prev = segment_state(p.drop_last());
        let c = p.last();
        if c == '<' {
            (prev.0 + 1, prev.1)
        } else if c == '>' {
            (if prev.0 > 0 { (prev.0 - 1) as nat } else { 0 }, prev.1)
        } else if prev.0 > 0 {
            prev
        } else if c == ':' {
            (0, Seq::empty())
        } else if c == ' ' {
            prev
        } else {
            (0, prev.1.push(c))
        }
    }
}

/// The identifier of the last segment of a type path, without its generic
/// arguments: `B` for `a::B<c::D>`.
pub open spec fn last_segment(p: Seq<char>) -> Seq<char> {
    segment_state(p).1
}

/// The variant name of an external type: its alias, else the identifier of
/// the last segment of its path, else `Unknown`.
pub open spec fn external_variant_name(type_path: Seq<char>, alias: Option<Seq<char>>) -> Seq<char> {
    match alias {
        Some(a) => a,
        None => if last_segment(type_path).len() > 0 { last_segment(type_path) } else { "Unknown"@ },
    }
}

fn last_segment_of(p: &str) -> (r: String)
    ensures
        r@ == last_segment(p@),
{
    let n = p.unicode_len();
    let mut depth: usize = 0;
    let mut seg = String::new();
    let mut i: usize = 0;
    while i < n
        invariant
            n == p@.len(),
            i <= n,
            depth <= i,
            segment_state(p@.take(i as int)) == (depth as nat, seg@),
        decreases n - i,
    {
        let c = p.get_char(i);
        proof {
            assert(p@.take(i as int + 1).drop_last() =~= p@.take(i as int));
            assert(p@.take(i as int + 1).last() == c);
        }
        if c == '<' {
            depth = depth + 1;
        } else if c == '>' {
            if depth > 0 {
                depth = depth - 1;
            }
        } else if depth > 0 {
        } else if c == ':' {
            seg = String::new();
            proof { assert(seg@ =~= Seq::<char>::empty()); }
        } else if c == ' ' {
        } else {
            push_char(&mut seg, c);
        }
        i = i + 1;
    }
    proof { assert(p@.take(n as int) =~= p@); }
    seg
}

/// One term of a `union!` definition.
#[derive(Debug)]
pub enum UnionTerm {
    /// An external error type, optionally renamed with `as`.
    External { type_path: String, alias: Option<String> },
    /// Variants written inline.
    Inline { variants: Vec<String> },
}

/// A variant of a generated union: its name and, for an external type, the
/// type it wraps.
#[derive(Debug, PartialEq, Eq)]
pub struct UnionVariant {
    pub name: String,
    pub wraps: Option<String>,
}

/// Inline variants: names wrapping nothing.
pub open spec fn inline_views(vs: Seq<String>) -> Seq<(Seq<char>, Option<Seq<char>>)> {
    vs.map_values(|v: String| (v@, None::<Seq<char>>))
}

/// The variants a term contributes, as (name, wrapped type).
pub open spec fn term_variants(t: UnionTerm) -> Seq<(Seq<char>, Option<Seq<char>>)> {
    match t {
        UnionTerm::External { type_path, alias } => seq![(external_variant_name(type_path@, crate::attachment::opt_str_model(alias)), Some(type_path@))],
        UnionTerm::Inline { variants } => inline_views(variants@),
    }
}

pub open spec fn union_variants_spec(terms: Seq<UnionTerm>) -> Seq<(Seq<char>, Option<Seq<char>>)>
    decreases terms.len(),
{
    if terms.len() == 0 { Seq::empty() } else { union_variants_spec(terms.drop_last()) + term_variants(terms.last()) }
}

pub open spec fn names_distinct(vs: Seq<(Seq<char>, Option<Seq<char>>)>) -> bool {
    forall|i: int, j: int| 0 <= i < j < vs.len() ==> #[trigger] vs[i].0 != #[trigger] vs[j].0
}

pub open spec fn variant_view(v: UnionVariant) -> (Seq<char>, Option<Seq<char>>) {
    (v.name@, crate::attachment::opt_str_model(v.wraps))
}

fn push_union_variant(out: &mut Vec<UnionVariant>, name: String, wraps: Option<String>) -> (dup: bool)
    requires
        names_distinct(old(out)@.map_values(|v: UnionVariant| variant_view(v))),
    ensures
        dup ==> exists|i: int| 0 <= i < old(out)@.len() && (#[trigger] old(out)@[i]).name@ == name@,
        dup ==> final(out)@ == old(out)@,
        !dup ==> final(out)@.map_values(|v: UnionVariant| variant_view(v))
            == old(out)@.map_values(|v: UnionVariant| variant_view(v)).push((name@, crate::attachment::opt_str_model(wraps))),
        names_distinct(final(out)@.map_values(|v: UnionVariant| variant_view(v))),
{
    let mut i: usize = 0;
    while i < out.len()
        invariant
            i <= out@.len(),
            out@ == old(out)@,
            names_distinct(out@.map_values(|v: UnionVariant| variant_view(v))),
            forall|j: int| 0 <= j < i ==> (#[trigger] out@[j]).name@ != name@,
        decreases out@.len() - i,
    {
        if str_eq(out[i].name.as_str(), name.as_str()) {
            return true;
        }
        i = i + 1;
    }
    let ghost before = out@.map_values(|v: UnionVariant| variant_view(v));
    out.push(UnionVariant { name, wraps });
    proof {
        let after = out@.map_values(|v: UnionVariant| variant_view(v));
        assert(after =~= before.push((name@, crate::attachment::opt_str_model(wraps))));
        assert forall|a: int, b: int| 0 <= a < b < after.len() implies #[trigger] after[a].0 != #[trigger] after[b].0 by {
            if b == after.len() - 1 {
                assert(after[a].0 == out@[a].name@);
            } else {
                assert(after[a] == before[a]);
                assert(after[b] == before[b]);
            }
        }
    }
    false
}

/// The variants of a `union!` definition, in order; `Err` with the name of a
/// variant that occurs twice.
pub fn union_variants(terms: &Vec<UnionTerm>) -> (r: Result<Vec<UnionVariant>, String>)
    ensures
        r matches Ok(vs) ==> vs@.map_values(|v: UnionVariant| variant_view(v)) == union_variants_spec(terms@),
        r matches Ok(vs) ==> names_distinct(union_variants_spec(terms@)),
        r matches Err(name) ==> !names_distinct(union_variants_spec(terms@)),
{
    let mut out: Vec<UnionVariant> = Vec::new();
    let mut t: usize = 0;
    proof {
        assert(out@.map_values(|v: UnionVariant| variant_view(v)) =~= union_variants_spec(terms@.take(0)));
    }
    while t < terms.len()
        invariant
            t <= terms@.len(),
            out@.map_values(|v: UnionVariant| variant_view(v)) == union_variants_spec(terms@.take(t as int)),
            names_distinct(out@.map_values(|v: UnionVariant| variant_view(v))),
        decreases terms@.len() - t,
    {
        let ghost base = out@.map_values(|v: UnionVariant| variant_view(v));
        proof {
            assert(terms@.take(t as int + 1).drop_last() =~= terms@.take(t as int));
        }
        match &terms[t] {
            UnionTerm::External { type_path, alias } => {
                let name = match alias {
                    Some(a) => a.clone(),
                    None => {
                        let seg = last_segment_of(type_path.as_str());
                        if seg.as_str().unicode_len() > 0 { seg } else { crate::text::str_to_string("Unknown") }
                    },
                };
                let dup = push_union_variant(&mut out, name.clone(), Some(type_path.clone()));
                if dup {
                    proof {
                        let k = choose|k: int| 0 <= k < out@.len() && (#[trigger] out@[k]).name@ == name@;
                        let all = union_variants_spec(terms@.take(t as int + 1));
                        assert(all == base + term_variants(terms@[t as int]));
                        assert(all[k].0 == name@);
                        assert(all[base.len() as int].0 == name@);
                        lemma_not_distinct_extends(all, terms@, t as int + 1);
                    }
                    return Err(name);
                }
                proof {
                    assert(out@.map_values(|v: UnionVariant| variant_view(v)) =~= union_variants_spec(terms@.take(t as int + 1)));
                }
            },
            UnionTerm::Inline { variants } => {
                let mut k: usize = 0;
                proof {
                    assert(inline_views(variants@.take(0)) =~= Seq::<(Seq<char>, Option<Seq<char>>)>::empty());
                    assert(base + Seq::<(Seq<char>, Option<Seq<char>>)>::empty() =~= base);
                }
                while k < variants.len()
                    invariant
                        k <= variants@.len(),
                        out@.map_values(|v: UnionVariant| variant_view(v)) == base + inline_views(variants@.take(k as int)),
                        names_distinct(out@.map_values(|v: UnionVariant| variant_view(v))),
                        base == union_variants_spec(terms@.take(t as int)),
                        terms@[t as int] == (UnionTerm::Inline { variants: *variants }),
                        t < terms@.len(),
                        terms@.take(t as int + 1).drop_last() =~= terms@.take(t as int),
                    decreases variants@.len() - k,
                {
                    let name = variants[k].clone();
                    let dup = push_union_variant(&mut out, name.clone(), None);
                    if dup {
                        proof {
                            let j = choose|j: int| 0 <= j < out@.len() && (#[trigger] out@[j]).name@ == name@;
                            let cur = base + inline_views(variants@.take(k as int));
                            let all = union_variants_spec(terms@.take(t as int + 1));
                            assert(all == base + inline_views(variants@));
                            assert(cur[j].0 == name@);
                            let iv = inline_views(variants@);
                            let ivk = inline_views(variants@.take(k as int));
                            assert(iv.len() == variants@.len());
                            assert(ivk.len() == k);
                            assert(out@.map_values(|v: UnionVariant| variant_view(v)).len() == out@.len());
                            assert(cur.len() == base.len() + k);
                            assert(j < cur.len());
                            if j < base.len() {
                                assert(all[j] == cur[j]);
                            } else {
                                let q = j - base.len();
                                assert(cur[j] == ivk[q]);
                                assert(all[j] == iv[q]);
                                assert(ivk[q] == (variants@.take(k as int)[q]@, None::<Seq<char>>));
                                assert(iv[q] == (variants@[q]@, None::<Seq<char>>));
                            }
                            assert(all[j].0 == cur[j].0);
                            assert(all[base.len() + k].0 == name@);
                            lemma_not_distinct_extends(all, terms@, t as int + 1);
                        }
                        return Err(name);
                    }
                    proof {
                        assert(inline_views(variants@.take(k as int + 1))
                            =~= inline_views(variants@.take(k as int)).push((variants@[k as int]@, None::<Seq<char>>)));
                    }
                    k = k + 1;
                }
                proof {
                    assert(variants@.take(variants@.len() as int) =~= variants@);
                }
            },
        }
        t = t + 1;
    }
    proof {
        assert(terms@.take(terms@.len() as int) =~= terms@);
    }
    Ok(out)
}

proof fn lemma_union_prefix(terms: Seq<UnionTerm>, n: int)
    requires
        0 <= n <= terms.len(),
    ensures
        union_variants_spec(terms.take(n)).len() <= union_variants_spec(terms).len(),
        forall|i: int| 0 <= i < union_variants_spec(terms.take(n)).len() ==>
            #[trigger] union_variants_spec(terms.take(n))[i] == union_variants_spec(terms)[i],
    decreases terms.len() - n,
{
    if n < terms.len() {
        lemma_union_prefix(terms, n + 1);
        assert(terms.take(n + 1).drop_last() =~= terms.take(n));
        let a = union_variants_spec(terms.take(n));
        let b = union_variants_spec(terms.take(n + 1));
        assert(b == a + term_variants(terms.take(n + 1).last()));
        assert forall|i: int| 0 <= i < a.len() implies #[trigger] a[i] == union_variants_spec(terms)[i] by {
            assert(a[i] == b[i]);
        }
    } else {
        assert(terms.take(n) =~= terms);
    }
}

proof fn lemma_not_distinct_extends(all: Seq<(Seq<char>, Option<Seq<char>>)>, terms: Seq<UnionTerm>, n: int)
    requires
        0 <= n <= terms.len(),
        all == union_variants_spec(terms.take(n)),
        !names_distinct(all),
    ensures
        !names_distinct(union_variants_spec(terms)),
{
    lemma_union_prefix(terms, n);
    let (i, j) = choose|i: int, j: int| 0 <= i < j < all.len() && #[trigger] all[i].0 == #[trigger] all[j].0;
    let full = union_variants_spec(terms);
    assert(full[i] == all[i] && full[j] == all[j]);
}

/// Whether the variant wraps the type named `type_path`.
pub open spec fn wraps_type(v: UnionVariant, type_path: Seq<char>) -> bool {
    v.wraps matches Some(w) && w@ == type_path
}

/// The variant that wraps `type_path`: the one `From<type_path>` converts to.
pub fn variant_for_type(variants: &Vec<UnionVariant>, type_path: &str) -> (r: Option<usize>)
    ensures
        r matches Some(i) ==> i < variants@.len() && wraps_type(variants@[i as int], type_path@),
        r is None ==> forall|i: int| 0 <= i < variants@.len() ==> !wraps_type(#[trigger] variants@[i], type_path@),
{
    let mut i: usize = 0;
    while i < variants.len()
        invariant
            i <= variants@.len(),
            forall|j: int| 0 <= j < i ==> !wraps_type(#[trigger] variants@[j], type_path@),
        decreases variants@.len() - i,
    {
        match &variants[i].wraps {
            Some(w) => {
                if str_eq(w.as_str(), type_path) {
                    return Some(i);
                }
            },
            None => {},
        }
        i = i + 1;
    }
    None
}

/// Whether every member of `inner` is a member of `outer`: then the
/// generator writes `From<inner> for outer`, mapping each variant to the
/// variant of the same name.
pub open spec fn is_subset(inner: Seq<Seq<char>>, outer: Seq<Seq<char>>) -> bool {
    forall|i: int| 0 <= i < inner.len() ==> outer.contains(#[trigger] inner[i])
}

/// Whether the set with members `inner` converts into the set with members `outer`.
pub fn converts_into(inner: &Vec<String>, outer: &Vec<String>) -> (r: bool)
    ensures
        r == is_subset(inner@.map_values(|s: String| s@), outer@.map_values(|s: String| s@)),
{
    let ghost iv = inner@.map_values(|s: String| s@);
    let ghost ov = outer@.map_values(|s: String| s@);
    let mut i: usize = 0;
    while i < inner.len()
        invariant
            i <= inner@.len(),
            iv == inner@.map_values(|s: String| s@),
            ov == outer@.map_values(|s: String| s@),
            forall|k: int| 0 <= k < i ==> ov.contains(#[trigger] iv[k]),
        decreases inner@.len() - i,
    {
        match position_of(outer, inner[i].as_str()) {
            Some(j) => {
                proof { assert(ov[j as int] == iv[i as int]); }
            },
            None => {
                proof {
                    assert(!ov.contains(iv[i as int])) by {
                        if ov.contains(iv[i as int]) {
                            let j = choose|j: int| 0 <= j < ov.len() && ov[j] == iv[i as int];
                            assert(outer@[j]@ == inner@[i as int]@);
                        }
                    }
                }
                return false;
            },
        }
        i = i + 1;
    }
    true
}

/// The position in `outer` of the variant named `variant`: where a
/// conversion puts a value of that variant.
pub fn convert_variant(outer: &Vec<String>, variant: &str) -> (r: Option<usize>)
    ensures
        r matches Some(i) ==> i < outer@.len() && outer@[i as int]@ == variant@,
        r is None ==> !names_have(outer@, variant@),
{
    position_of(outer, variant)
}

/// A set definition: the sets it includes and the variants it adds.
#[derive(Debug)]
pub struct SetDef {
    pub name: String,
    pub includes: Vec<String>,
    pub variants: Vec<String>,
}

/// `acc` followed by the names of `extra` it does not hold yet, each once.
pub open spec fn append_new_spec(acc: Seq<Seq<char>>, extra: Seq<Seq<char>>) -> Seq<Seq<char>>
    decreases extra.len(),
{
    if extra.len() == 0 {
        acc
    } else {
        let a = append_new_spec(acc, extra.drop_last());
        if a.contains(extra.last()) { a } else { a.push(extra.last()) }
    }
}

pub open spec fn str_views(v: Seq<String>) -> Seq<Seq<char>> {
    v.map_values(|x: String| x@)
}

/// Appends the names of `extra` not yet present.
fn append_new(out: &mut Vec<String>, extra: &Vec<String>)
    ensures
        str_views(final(out)@) == append_new_spec(str_views(old(out)@), str_views(extra@)),
{
    let ghost o = str_views(old(out)@);
    let ghost e = str_views(extra@);
    let mut i: usize = 0;
    proof { assert(e.take(0) =~= Seq::<Seq<char>>::empty()); }
    while i < extra.len()
        invariant
            i <= extra@.len(),
            o == str_views(old(out)@),
            e == str_views(extra@),
            str_views(out@) == append_new_spec(o, e.take(i as int)),
        decreases extra@.len() - i,
    {
        let ghost before = str_views(out@);
        proof {
            assert(e.take(i as int + 1).drop_last() =~= e.take(i as int));
            assert(e.take(i as int + 1).last() == e[i as int]);
        }
        match position_of(out, extra[i].as_str()) {
            Some(j) => {
                proof {
                    assert(before[j as int] == e[i as int]);
                    assert(before.contains(e[i as int]));
                }
            },
            None => {
                proof {
                    assert(!before.contains(e[i as int])) by {
                        if before.contains(e[i as int]) {
                            let k = choose|k: int| 0 <= k < before.len() && before[k] == e[i as int];
                            assert(out@[k]@ == extra@[i as int]@);
                        }
                    }
                }
                out.push(extra[i].clone());
                proof {
                    assert(str_views(out@) =~= before.push(e[i as int]));
                }
            },
        }
        i = i + 1;
    }
    proof {
        assert(e.take(extra@.len() as int) =~= e);
    }
}

/// Why set definitions could not be resolved.
#[derive(Debug, PartialEq, Eq)]
pub enum SetError {
    /// A definition includes a set not defined before it.
    UnknownSet(String),
}

/// The first definition before `k` named `name`, searching from `i`.
pub open spec fn find_def_spec(defs: Seq<SetDef>, name: Seq<char>, i: int, k: int) -> Option<int>
    decreases k - i,
{
    if i >= k { None } else if defs[i].name@ == name { Some(i) } else { find_def_spec(defs, name, i + 1, k) }
}

/// The members of definition `k` after its first `m` includes, given the
/// members of the definitions before it; `None` when an include names no
/// earlier definition.
pub open spec fn included_members(defs: Seq<SetDef>, prev: Seq<Seq<Seq<char>>>, k: int, m: int) -> Option<Seq<Seq<char>>>
    decreases m,
{
    if m <= 0 {
        Some(Seq::empty())
    } else {
        match included_members(defs, prev, k, m - 1) {
            None => None,
            Some(acc) => match find_def_spec(defs, defs[k].includes@[m - 1]@, 0, k) {
                None => None,
                Some(j) => Some(append_new_spec(acc, prev[j])),
            },
        }
    }
}

/// The resolved members of every definition, in order; `None` when some
/// definition includes a set not defined before it.
pub open spec fn resolved_sets(defs: Seq<SetDef>, n: int) -> Option<Seq<Seq<Seq<char>>>>
    decreases n,
{
    if n <= 0 {
        Some(Seq::empty())
    } else {
        match resolved_sets(defs, n - 1) {
            None => None,
            Some(prev) => match included_members(defs, prev, n - 1, defs[n - 1].includes@.len() as int) {
                None => None,
                Some(acc) => Some(prev.push(append_new_spec(acc, str_views(defs[n - 1].variants@)))),
            },
        }
    }
}

fn find_def(defs: &Vec<SetDef>, name: &str, k: usize) -> (r: Option<usize>)
    requires
        k <= defs@.len(),
    ensures
        r matches Some(j) ==> find_def_spec(defs@, name@, 0, k as int) == Some(j as int) && j < k,
        r is None ==> find_def_spec(defs@, name@, 0, k as int) is None,
{
    let mut i: usize = 0;
    while i < k
        invariant
            k <= defs@.len(),
            i <= k,
            find_def_spec(defs@, name@, 0, k as int) == find_def_spec(defs@, name@, i as int, k as int),
        decreases k - i,
    {
        if str_eq(defs[i].name.as_str(), name) {
            return Some(i);
        }
        i = i + 1;
    }
    None
}

/// Resolves set definitions in order: each set's members are the members of
/// the sets it includes, then its own variants, each name once. A set may
/// include only sets defined before it; the first definition of a name is
/// the one included.
pub fn resolve_sets(defs: &Vec<SetDef>) -> (r: Result<Vec<Vec<String>>, SetError>)
    ensures
        r is Ok <==> resolved_sets(defs@, defs@.len() as int) is Some,
        r matches Ok(members) ==> members@.map_values(|v: Vec<String>| str_views(v@)) == resolved_sets(defs@, defs@.len() as int)->Some_0,
{
    let mut out: Vec<Vec<String>> = Vec::new();
    let mut k: usize = 0;
    while k < defs.len()
        invariant
            k <= defs@.len(),
            resolved_sets(defs@, k as int) == Some(out@.map_values(|v: Vec<String>| str_views(v@))),
            out@.len() == k,
        decreases defs@.len() - k,
    {
        let ghost prev = out@.map_values(|v: Vec<String>| str_views(v@));
        assert(out@.len() == prev.len());
        let mut members: Vec<String> = Vec::new();
        let d = &defs[k];
        let mut m: usize = 0;
        while m < d.includes.len()
            invariant
                k < defs@.len(),
                *d == defs@[k as int],
                m <= d.includes@.len(),
                prev == out@.map_values(|v: Vec<String>| str_views(v@)),
                out@.len() == k,
                resolved_sets(defs@, k as int) == Some(prev),
                included_members(defs@, prev, k as int, m as int) == Some(str_views(members@)),
            decreases d.includes@.len() - m,
        {
            let j = match find_def(defs, d.includes[m].as_str(), k) {
                Some(j) => j,
                None => {
                    proof {
                        lemma_included_none(defs@, prev, k as int, m as int + 1, d.includes@.len() as int);
                        lemma_resolved_none(defs@, k as int + 1, defs@.len() as int);
                    }
                    return Err(SetError::UnknownSet(d.includes[m].clone()));
                },
            };
            proof {
                assert(prev[j as int] == str_views(out@[j as int]@));
            }
            append_new(&mut members, &out[j]);
            m = m + 1;
        }
        append_new(&mut members, &d.variants);
        out.push(members);
        proof {
            assert(out@.map_values(|v: Vec<String>| str_views(v@)) =~= prev.push(str_views(out@[k as int]@)));
        }
        k = k + 1;
    }
    Ok(out)
}

proof fn lemma_included_none(defs: Seq<SetDef>, prev: Seq<Seq<Seq<char>>>, k: int, m: int, n: int)
    requires
        1 <= m <= n,
        included_members(defs, prev, k, m) is None,
    ensures
        included_members(defs, prev, k, n) is None,
    decreases n - m,
{
    if m < n {
        lemma_included_none(defs, prev, k, m + 1, n);
    }
}

proof fn lemma_resolved_none(defs: Seq<SetDef>, m: int, n: int)
    requires
        1 <= m <= n,
        resolved_sets(defs, m) is None || (resolved_sets(defs, m - 1) matches Some(prev)
            && included_members(defs, prev, m - 1, defs[m - 1].includes@.len() as int) is None),
    ensures
        resolved_sets(defs, n) is None,
    decreases n - m,
{
    assert(resolved_sets(defs, m) is None);
    if m < n {
        lemma_resolved_none(defs, m + 1, n);
    }
}

/// An attribute on a field of a derived error: its name and whether it
/// was given arguments.
#[derive(Debug)]
pub struct FieldAttr {
    pub name: String,
    pub has_args: bool,
}

/// Whether a field carries `#[from]` and `#[source]`.
#[derive(Debug, Clone, Copy, PartialEq, Eq, Structural)]
pub struct FieldRef {
    pub index: usize,
    pub has_from: bool,
    pub has_source: bool,
}

/// Why the source of a derived error could not be determined.
#[derive(Debug, Clone, Copy, PartialEq, Eq, Structural)]
pub enum FieldRefError {
    DuplicateFrom,
    FromWithArguments,
    DuplicateSource,
    SourceWithArguments,
    MultipleFrom,
    FromNeedsOneField,
    MultipleSources,
    TransparentNeedsOneField,
}

/// The message the derive reports for an error.
pub open spec fn field_ref_error_message(e: FieldRefError) -> Seq<char> {
    match e {
        FieldRefError::DuplicateFrom => "duplicate #[from] on field"@,
        FieldRefError::FromWithArguments => "#[from] does not accept arguments"@,
        FieldRefError::DuplicateSource => "duplicate #[source] on field"@,
        FieldRefError::SourceWithArguments => "#[source] does not accept arguments"@,
        FieldRefError::MultipleFrom => "multiple #[from] fields are not supported"@,
        FieldRefError::FromNeedsOneField => "#[from] requires exactly one field"@,
        FieldRefError::MultipleSources => "multiple #[source]/#[from] fields are not supported"@,
        FieldRefError::TransparentNeedsOneField => "#[display(transparent)] requires exactly one field"@,
    }
}

impl FieldRefError {
    /// The message the derive reports.
    pub fn message(self) -> (r: &'static str)
        ensures
            r@ == field_ref_error_message(self),
    {
        match self {
            FieldRefError::DuplicateFrom => "duplicate #[from] on field",
            FieldRefError::FromWithArguments => "#[from] does not accept arguments",
            FieldRefError::DuplicateSource => "duplicate #[source] on field",
            FieldRefError::SourceWithArguments => "#[source] does not accept arguments",
            FieldRefError::MultipleFrom => "multiple #[from] fields are not supported",
            FieldRefError::FromNeedsOneField => "#[from] requires exactly one field",
            FieldRefError::MultipleSources => "multiple #[source]/#[from] fields are not supported",
            FieldRefError::TransparentNeedsOneField => "#[display(transparent)] requires exactly one field",
        }
    }
}

/// The `#[from]` and `#[source]` flags of a field, from its attributes read
/// in order: a repeated marker or a marker with arguments is an error.
pub open spec fn scan_attrs(attrs: Seq<FieldAttr>, from: bool, source: bool) -> Result<(bool, bool), FieldRefError>
    decreases attrs.len(),
{
    if attrs.len() == 0 {
        Ok((from, source))
    } else {
        let a = attrs[0];
        if a.name@ == "from"@ {
            if from {
                Err(FieldRefError::DuplicateFrom)
            } else if a.has_args {
                Err(FieldRefError::FromWithArguments)
            } else {
                scan_attrs(attrs.drop_first(), true, source)
            }
        } else if a.name@ == "source"@ {
            if source {
                Err(FieldRefError::DuplicateSource)
            } else if a.has_args {
                Err(FieldRefError::SourceWithArguments)
            } else {
                scan_attrs(attrs.drop_first(), from, true)
            }
        } else {
            scan_attrs(attrs.drop_first(), from, source)
        }
    }
}

/// The flags of fields `j..`, in order; the first field in error decides.
pub open spec fn scan_fields(fields: Seq<Vec<FieldAttr>>, j: int) -> Result<Seq<FieldRef>, FieldRefError>
    decreases fields.len() - j,
{
    if j < 0 || j >= fields.len() {
        Ok(Seq::empty())
    } else {
        match scan_attrs(fields[j]@, false, false) {
            Err(e) => Err(e),
            Ok((f, s)) => match scan_fields(fields, j + 1) {
                Err(e) => Err(e),
                Ok(rest) => Ok(seq![FieldRef { index: j as usize, has_from: f, has_source: s }] + rest),
            },
        }
    }
}

fn scan_field(attrs: &Vec<FieldAttr>) -> (r: Result<(bool, bool), FieldRefError>)
    ensures
        r == scan_attrs(attrs@, false, false),
{
    let mut has_from = false;
    let mut has_source = false;
    let mut i: usize = 0;
    proof {
        assert(attrs@.skip(0) =~= attrs@);
    }
    while i < attrs.len()
        invariant
            i <= attrs@.len(),
            scan_attrs(attrs@, false, false) == scan_attrs(attrs@.skip(i as int), has_from, has_source),
        decreases attrs@.len() - i,
    {
        proof {
            assert(attrs@.skip(i as int).drop_first() =~= attrs@.skip(i as int + 1));
            assert(attrs@.skip(i as int)[0] == attrs@[i as int]);
        }
        let a = &attrs[i];
        if str_eq(a.name.as_str(), "from") {
            if has_from {
                return Err(FieldRefError::DuplicateFrom);
            }
            if a.has_args {
                return Err(FieldRefError::FromWithArguments);
            }
            has_from = true;
        } else if str_eq(a.name.as_str(), "source") {
            if has_source {
                return Err(FieldRefError::DuplicateSource);
            }
            if a.has_args {
                return Err(FieldRefError::SourceWithArguments);
            }
            has_source = true;
        }
        i = i + 1;
    }
    proof {
        assert(attrs@.skip(i as int).len() == 0);
    }
    Ok((has_from, has_source))
}

/// The `#[from]` and `#[source]` flags of every field, in order.
pub fn scan_field_refs(fields: &Vec<Vec<FieldAttr>>) -> (r: Result<Vec<FieldRef>, FieldRefError>)
    ensures
        match r {
            Ok(v) => scan_fields(fields@, 0) == Ok::<Seq<FieldRef>, FieldRefError>(v@),
            Err(e) => scan_fields(fields@, 0) == Err::<Seq<FieldRef>, FieldRefError>(e),
        },
{
    let mut refs: Vec<FieldRef> = Vec::new();
    let mut j: usize = 0;
    while j < fields.len()
        invariant
            j <= fields@.len(),
            scan_fields(fields@, 0) == match scan_fields(fields@, j as int) {
                Ok(rest) => Ok(refs@ + rest),
                Err(e) => Err(e),
            },
        decreases fields@.len() - j,
    {
        match scan_field(&fields[j]) {
            Err(e) => {
                return Err(e);
            },
            Ok((f, s)) => {
                let ghost before = refs@;
                refs.push(FieldRef { index: j, has_from: f, has_source: s });
                proof {
                    match scan_fields(fields@, j as int + 1) {
                        Ok(rest) => {
                            assert(before + (seq![FieldRef { index: j, has_from: f, has_source: s }] + rest) =~= refs@ + rest);
                        },
                        Err(e) => {},
                    }
                }
            },
        }
        j = j + 1;
    }
    proof {
        assert(refs@ + Seq::<FieldRef>::empty() =~= refs@);
    }
    Ok(refs)
}

/// The indices of the fields marked `#[from]`, in order.
pub open spec fn from_indices(refs: Seq<FieldRef>) -> Seq<usize>
    decreases refs.len(),
{
    if refs.len() == 0 {
        Seq::empty()
    } else {
        let rest = from_indices(refs.drop_last());
        if refs.last().has_from { rest.push(refs.last().index) } else { rest }
    }
}

/// The fields marked `#[source]` or `#[from]`, in order.
pub open spec fn source_refs(refs: Seq<FieldRef>) -> Seq<FieldRef>
    decreases refs.len(),
{
    if refs.len() == 0 {
        Seq::empty()
    } else {
        let rest = source_refs(refs.drop_last());
        if refs.last().has_source || refs.last().has_from { rest.push(refs.last()) } else { rest }
    }
}

/// The field a `#[from]` conversion wraps: none without a marked field; an
/// error with two marked fields, or when the marked field is not the only
/// field.
pub open spec fn from_field_spec(fields: Seq<Vec<FieldAttr>>) -> Result<Option<usize>, FieldRefError> {
    match scan_fields(fields, 0) {
        Err(e) => Err(e),
        Ok(refs) => {
            let idx = from_indices(refs);
            if idx.len() >= 2 {
                Err(FieldRefError::MultipleFrom)
            } else if idx.len() == 1 {
                if fields.len() != 1 { Err(FieldRefError::FromNeedsOneField) } else { Ok(Some(idx[0])) }
            } else {
                Ok(None)
            }
        },
    }
}

/// The field marked `#[source]` or `#[from]`: none without one; an error
/// with two.
pub open spec fn source_field_spec(fields: Seq<Vec<FieldAttr>>) -> Result<Option<FieldRef>, FieldRefError> {
    match scan_fields(fields, 0) {
        Err(e) => Err(e),
        Ok(refs) => {
            let marked = source_refs(refs);
            if marked.len() >= 2 {
                Err(FieldRefError::MultipleSources)
            } else if marked.len() == 1 {
                Ok(Some(marked[0]))
            } else {
                Ok(None)
            }
        },
    }
}

/// The field `#[from]` wraps, as [`from_field_spec`] says.
pub fn from_field(fields: &Vec<Vec<FieldAttr>>) -> (r: Result<Option<usize>, FieldRefError>)
    ensures
        r == from_field_spec(fields@),
{
    let refs = match scan_field_refs(fields) {
        Err(e) => return Err(e),
        Ok(v) => v,
    };
    let mut found: Option<usize> = None;
    let mut i: usize = 0;
    while i < refs.len()
        invariant
            i <= refs@.len(),
            from_indices(refs@.take(i as int)).len() <= 1,
            found == (if from_indices(refs@.take(i as int)).len() == 0 { None } else { Some(from_indices(refs@.take(i as int))[0]) }),
            scan_fields(fields@, 0) == Ok::<Seq<FieldRef>, FieldRefError>(refs@),
        decreases refs@.len() - i,
    {
        proof {
            assert(refs@.take(i as int + 1).drop_last() =~= refs@.take(i as int));
            assert(refs@.take(i as int + 1).last() == refs@[i as int]);
        }
        if refs[i].has_from {
            if found.is_some() {
                proof {
                    lemma_from_indices_prefix(refs@, i as int + 1);
                }
                return Err(FieldRefError::MultipleFrom);
            }
            found = Some(refs[i].index);
        }
        i = i + 1;
    }
    proof {
        assert(refs@.take(i as int) =~= refs@);
    }
    match found {
        Some(idx) => {
            if fields.len() != 1 {
                Err(FieldRefError::FromNeedsOneField)
            } else {
                Ok(Some(idx))
            }
        },
        None => Ok(None),
    }
}

/// The prefix of the marked indices never outgrows the whole.
proof fn lemma_from_indices_prefix(refs: Seq<FieldRef>, k: int)
    requires
        0 <= k <= refs.len(),
    ensures
        from_indices(refs.take(k)).len() <= from_indices(refs).len(),
    decreases refs.len() - k,
{
    if k < refs.len() {
        lemma_from_indices_prefix(refs, k + 1);
        assert(refs.take(k + 1).drop_last() =~= refs.take(k));
    } else {
        assert(refs.take(k) =~= refs);
    }
}

proof fn lemma_source_refs_prefix(refs: Seq<FieldRef>, k: int)
    requires
        0 <= k <= refs.len(),
    ensures
        source_refs(refs.take(k)).len() <= source_refs(refs).len(),
    decreases refs.len() - k,
{
    if k < refs.len() {
        lemma_source_refs_prefix(refs, k + 1);
        assert(refs.take(k + 1).drop_last() =~= refs.take(k));
    } else {
        assert(refs.take(k) =~= refs);
    }
}

/// The field marked `#[source]` or `#[from]`, as [`source_field_spec`]
/// says.
pub fn source_field(fields: &Vec<Vec<FieldAttr>>) -> (r: Result<Option<FieldRef>, FieldRefError>)
    ensures
        r == source_field_spec(fields@),
{
    let refs = match scan_field_refs(fields) {
        Err(e) => return Err(e),
        Ok(v) => v,
    };
    let mut found: Option<FieldRef> = None;
    let mut i: usize = 0;
    while i < refs.len()
        invariant
            i <= refs@.len(),
            source_refs(refs@.take(i as int)).len() <= 1,
            found == (if source_refs(refs@.take(i as int)).len() == 0 { None } else { Some(source_refs(refs@.take(i as int))[0]) }),
            scan_fields(fields@, 0) == Ok::<Seq<FieldRef>, FieldRefError>(refs@),
        decreases refs@.len() - i,
    {
        proof {
            assert(refs@.take(i as int + 1).drop_last() =~= refs@.take(i as int));
            assert(refs@.take(i as int + 1).last() == refs@[i as int]);
        }
        if refs[i].has_source || refs[i].has_from {
            if found.is_some() {
                proof {
                    lemma_source_refs_prefix(refs@, i as int + 1);
                }
                return Err(FieldRefError::MultipleSources);
            }
            found = Some(refs[i]);
        }
        i = i + 1;
    }
    proof {
        assert(refs@.take(i as int) =~= refs@);
    }
    Ok(found)
}

/// The field an error's `source()` returns: the marked field; else, for a
/// transparent display, the only field (an error when there is not exactly
/// one); else none.
pub fn resolved_source_index(fields: &Vec<Vec<FieldAttr>>, transparent: bool) -> (r: Result<Option<usize>, FieldRefError>)
    ensures
        match source_field_spec(fields@) {
            Err(e) => r == Err::<Option<usize>, FieldRefError>(e),
            Ok(Some(f)) => r == Ok::<Option<usize>, FieldRefError>(Some(f.index)),
            Ok(None) => r == (if !transparent {
                Ok::<Option<usize>, FieldRefError>(None)
            } else if fields@.len() != 1 {
                Err(FieldRefError::TransparentNeedsOneField)
            } else {
                Ok(Some(0))
            }),
        },
{
    match source_field(fields) {
        Err(e) => Err(e),
        Ok(Some(f)) => Ok(Some(f.index)),
        Ok(None) => {
            if transparent {
                if fields.len() != 1 {
                    Err(FieldRefError::TransparentNeedsOneField)
                } else {
                    Ok(Some(0))
                }
            } else {
                Ok(None)
            }
        },
    }
}

/// An attribute of a derive input: its name, and the text of its arguments
/// when it has any (`#[name(args)]`).
#[derive(Debug)]
pub struct DeriveAttr {
    pub name: String,
    pub args: Option<String>,
}

/// The value of the string literal that `tokens` is, if it is one.
pub uninterp spec fn lit_str_value(tokens: Seq<char>) -> Option<Seq<char>>;

/// The identifier that `tokens` is, if it is one (keywords are not).
pub uninterp spec fn ident_text(tokens: Seq<char>) -> Option<Seq<char>>;

/// Whether `tokens` is a Rust path.
pub uninterp spec fn is_path_text(tokens: Seq<char>) -> bool;

pub open spec fn opt_text(o: Option<String>) -> Option<Seq<char>> {
    match o {
        Some(s) => Some(s@),
        None => None,
    }
}

/// Reads `tokens` as a string literal and returns its value.
///
/// Trusted: calls `syn::parse_str::<syn::LitStr>` and `LitStr::value`; the
/// result is named, not stated, since it is what syn's literal grammar gives.
#[verifier::external_body]
fn parse_lit_str(tokens: &str) -> (r: Option<String>)
    ensures
        opt_text(r) == lit_str_value(tokens@),
{
    match syn::parse_str::<syn::LitStr>(tokens) {
        Ok(lit) => Some(lit.value()),
        Err(_) => None,
    }
}

/// Reads `tokens` as an identifier and returns its text.
///
/// Trusted: calls `syn::parse_str::<syn::Ident>`, which refuses keywords;
/// the result is named, not stated.
#[verifier::external_body]
fn parse_ident(tokens: &str) -> (r: Option<String>)
    ensures
        opt_text(r) == ident_text(tokens@),
{
    match syn::parse_str::<syn::Ident>(tokens) {
        Ok(ident) => Some(ident.to_string()),
        Err(_) => None,
    }
}

/// Whether `tokens` is a Rust path.
///
/// Trusted: calls `syn::parse_str::<syn::Path>`; the result is named, not
/// stated.
#[verifier::external_body]
fn parses_as_path(tokens: &str) -> (r: bool)
    ensures
        r == is_path_text(tokens@),
{
    syn::parse_str::<syn::Path>(tokens).is_ok()
}

/// How a variant is displayed.
#[derive(Debug)]
pub enum DisplayMode {
    /// `Enum::Variant`.
    Default,
    /// A format template.
    Template(String),
    /// The single field's own display.
    Transparent,
}

/// The plain form of a display mode.
pub enum DisplayModeModel {
    Default,
    Template(Seq<char>),
    Transparent,
}

pub open spec fn display_mode_model(m: DisplayMode) -> DisplayModeModel {
    match m {
        DisplayMode::Default => DisplayModeModel::Default,
        DisplayMode::Template(t) => DisplayModeModel::Template(t@),
        DisplayMode::Transparent => DisplayModeModel::Transparent,
    }
}

/// Why a `#[display(...)]` attribute was refused.
#[derive(Debug, Clone, Copy, PartialEq, Eq, Structural)]
pub enum DisplayModeError {
    /// The arguments are neither a string literal nor an identifier.
    Malformed,
    /// An identifier other than `transparent`.
    Unsupported,
    /// A second `#[display(...)]` on the same variant.
    Duplicate,
}

/// The mode a `#[display(...)]` argument asks for, from what it reads as: a
/// string literal is a template, the identifier `transparent` is
/// transparent, any other identifier is refused, and neither is malformed.
pub open spec fn display_mode_of_parsed(lit: Option<Seq<char>>, ident: Option<Seq<char>>) -> Result<DisplayModeModel, DisplayModeError> {
    match lit {
        Some(v) => Ok(DisplayModeModel::Template(v)),
        None => match ident {
            Some(i) => if i == "transparent"@ { Ok(DisplayModeModel::Transparent) } else { Err(DisplayModeError::Unsupported) },
            None => Err(DisplayModeError::Malformed),
        },
    }
}

/// The mode one `#[display(...)]` asks for: its arguments read as a string
/// literal, else as an identifier.
pub open spec fn display_mode_of(args: Option<String>) -> Result<DisplayModeModel, DisplayModeError> {
    match args {
        None => Err(DisplayModeError::Malformed),
        Some(t) => display_mode_of_parsed(lit_str_value(t@), ident_text(t@)),
    }
}

/// The display mode of a variant from its attributes `attrs[i..]`, read in
/// order with `mode` found so far: only `display` attributes count, each is
/// read first, and a second one is refused.
pub open spec fn display_mode_from(attrs: Seq<DeriveAttr>, i: int, mode: DisplayModeModel) -> Result<DisplayModeModel, DisplayModeError>
    decreases attrs.len() - i,
{
    if i < 0 || i >= attrs.len() {
        Ok(mode)
    } else if attrs[i].name@ != "display"@ {
        display_mode_from(attrs, i + 1, mode)
    } else {
        match display_mode_of(attrs[i].args) {
            Err(e) => Err(e),
            Ok(parsed) => if !(mode is Default) {
                Err(DisplayModeError::Duplicate)
            } else {
                display_mode_from(attrs, i + 1, parsed)
            },
        }
    }
}

/// The display mode from the arguments read as a string literal (`lit`) and
/// as an identifier (`ident`); `ident` counts only when `lit` is `None`.
pub fn display_mode_from_parsed(lit: Option<String>, ident: Option<String>) -> (r: Result<DisplayMode, DisplayModeError>)
    ensures
        match r {
            Ok(m) => display_mode_of_parsed(opt_text(lit), opt_text(ident)) == Ok::<DisplayModeModel, DisplayModeError>(display_mode_model(m)),
            Err(e) => display_mode_of_parsed(opt_text(lit), opt_text(ident)) == Err::<DisplayModeModel, DisplayModeError>(e),
        },
{
    match lit {
        Some(v) => Ok(DisplayMode::Template(v)),
        None => match ident {
            Some(i) => if str_eq(i.as_str(), "transparent") {
                Ok(DisplayMode::Transparent)
            } else {
                Err(DisplayModeError::Unsupported)
            },
            None => Err(DisplayModeError::Malformed),
        },
    }
}

fn read_display_attr(args: &Option<String>) -> (r: Result<DisplayMode, DisplayModeError>)
    ensures
        match r {
            Ok(m) => display_mode_of(*args) == Ok::<DisplayModeModel, DisplayModeError>(display_mode_model(m)),
            Err(e) => display_mode_of(*args) == Err::<DisplayModeModel, DisplayModeError>(e),
        },
{
    match args {
        None => Err(DisplayModeError::Malformed),
        Some(t) => {
            let lit = parse_lit_str(t.as_str());
            let ident = match lit {
                Some(_) => None,
                None => parse_ident(t.as_str()),
            };
            display_mode_from_parsed(lit, ident)
        },
    }
}

/// The display mode of a variant, as [`display_mode_from`] says from the
/// first attribute with the default mode.
pub fn parse_display_mode(attrs: &Vec<DeriveAttr>) -> (r: Result<DisplayMode, DisplayModeError>)
    ensures
        match r {
            Ok(m) => display_mode_from(attrs@, 0, DisplayModeModel::Default) == Ok::<DisplayModeModel, DisplayModeError>(display_mode_model(m)),
            Err(e) => display_mode_from(attrs@, 0, DisplayModeModel::Default) == Err::<DisplayModeModel, DisplayModeError>(e),
        },
{
    let mut mode = DisplayMode::Default;
    let mut i: usize = 0;
    while i < attrs.len()
        invariant
            i <= attrs@.len(),
            display_mode_from(attrs@, 0, DisplayModeModel::Default) == display_mode_from(attrs@, i as int, display_mode_model(mode)),
        decreases attrs@.len() - i,
    {
        let a = &attrs[i];
        if str_eq(a.name.as_str(), "display") {
            let parsed = match read_display_attr(&a.args) {
                Err(e) => return Err(e),
                Ok(m) => m,
            };
            let is_default = match mode {
                DisplayMode::Default => true,
                _ => false,
            };
            if !is_default {
                return Err(DisplayModeError::Duplicate);
            }
            mode = parsed;
        }
        i = i + 1;
    }
    Ok(mode)
}

/// One `key = "value"` option of a `#[diagweave(...)]` attribute.
#[derive(Debug)]
pub struct SetOption {
    pub key: String,
    pub value: String,
}

/// The options of a set declaration: the report type its constructors
/// return and the prefix of their names.
#[derive(Debug)]
pub struct SetOptions {
    pub report_path: String,
    pub constructor_prefix: String,
}

impl Default for SetOptions {
    /// The default report type and no prefix.
    fn default() -> (r: Self)
        ensures
            r.report_path@ == default_report_path(),
            r.constructor_prefix@.len() == 0,
    {
        let mut report_path = String::new();
        append_str(&mut report_path, "::diagweave::report::Report");
        proof {
            assert(report_path@ =~= default_report_path());
        }
        SetOptions { report_path, constructor_prefix: String::new() }
    }
}

/// Why set options were refused.
#[derive(Debug, Clone, Copy, PartialEq, Eq, Structural)]
pub enum SetOptionError {
    /// `report_path` is not a Rust path.
    InvalidReportPath,
    /// `constructor_prefix` holds something other than lower-case ASCII
    /// letters, digits and `_`.
    InvalidConstructorPrefix,
    /// An option other than `report_path` and `constructor_prefix`.
    UnknownOption,
}

/// The report type used when no option names one.
pub open spec fn default_report_path() -> Seq<char> {
    "::diagweave::report::Report"@
}

/// Whether a prefix can start a snake-case name.
pub open spec fn valid_prefix(p: Seq<char>) -> bool {
    forall|i: int| 0 <= i < p.len() ==> #[trigger] is_ascii_lower(p[i]) || ('0' <= p[i] && p[i] <= '9') || p[i] == '_'
}

/// The options after reading `opts[i..]` in order from `(path, prefix)`:
/// a later option replaces an earlier one; the first invalid or unknown
/// option is refused.
pub open spec fn set_options_from(opts: Seq<SetOption>, i: int, path: Seq<char>, prefix: Seq<char>) -> Result<(Seq<char>, Seq<char>), SetOptionError>
    decreases opts.len() - i,
{
    if i < 0 || i >= opts.len() {
        Ok((path, prefix))
    } else {
        let o = opts[i];
        if o.key@ == "report_path"@ {
            if is_path_text(o.value@) { set_options_from(opts, i + 1, o.value@, prefix) } else { Err(SetOptionError::InvalidReportPath) }
        } else if o.key@ == "constructor_prefix"@ {
            if valid_prefix(o.value@) { set_options_from(opts, i + 1, path, o.value@) } else { Err(SetOptionError::InvalidConstructorPrefix) }
        } else {
            Err(SetOptionError::UnknownOption)
        }
    }
}

fn is_valid_prefix(p: &str) -> (r: bool)
    ensures
        r == valid_prefix(p@),
{
    let n = p.unicode_len();
    let mut i: usize = 0;
    while i < n
        invariant
            n == p@.len(),
            i <= n,
            forall|j: int| 0 <= j < i ==> #[trigger] is_ascii_lower(p@[j]) || ('0' <= p@[j] && p@[j] <= '9') || p@[j] == '_',
        decreases n - i,
    {
        let c = p.get_char(i);
        if !(('a' <= c && c <= 'z') || ('0' <= c && c <= '9') || c == '_') {
            assert(!(is_ascii_lower(p@[i as int]) || ('0' <= p@[i as int] && p@[i as int] <= '9') || p@[i as int] == '_'));
            return false;
        }
        i = i + 1;
    }
    true
}

/// Reads the options of a set declaration, as [`set_options_from`] says
/// from the default path and an empty prefix.
pub fn parse_set_options(opts: &Vec<SetOption>) -> (r: Result<SetOptions, SetOptionError>)
    ensures
        match r {
            Ok(o) => set_options_from(opts@, 0, default_report_path(), Seq::empty())
                == Ok::<(Seq<char>, Seq<char>), SetOptionError>((o.report_path@, o.constructor_prefix@)),
            Err(e) => set_options_from(opts@, 0, default_report_path(), Seq::empty())
                == Err::<(Seq<char>, Seq<char>), SetOptionError>(e),
        },
{
    let mut report_path = String::new();
    append_str(&mut report_path, "::diagweave::report::Report");
    let mut constructor_prefix = String::new();
    proof {
        assert(report_path@ =~= default_report_path());
        assert(constructor_prefix@ =~= Seq::<char>::empty());
    }
    let mut i: usize = 0;
    while i < opts.len()
        invariant
            i <= opts@.len(),
            set_options_from(opts@, 0, default_report_path(), Seq::empty())
                == set_options_from(opts@, i as int, report_path@, constructor_prefix@),
        decreases opts@.len() - i,
    {
        let o = &opts[i];
        if str_eq(o.key.as_str(), "report_path") {
            if !parses_as_path(o.value.as_str()) {
                return Err(SetOptionError::InvalidReportPath);
            }
            report_path = o.value.clone();
        } else if str_eq(o.key.as_str(), "constructor_prefix") {
            if !is_valid_prefix(o.value.as_str()) {
                return Err(SetOptionError::InvalidConstructorPrefix);
            }
            constructor_prefix = o.value.clone();
        } else {
            return Err(SetOptionError::UnknownOption);
        }
        i = i + 1;
    }
    Ok(SetOptions { report_path, constructor_prefix })
}

/// The constructor name of a variant: its snake-case name, after `prefix`
/// and `_` when a prefix is given.
pub open spec fn ctor_name(variant: Seq<char>, prefix: Seq<char>) -> Seq<char> {
    if prefix.len() == 0 { snake_case(variant) } else { prefix + seq!['_'] + snake_case(variant) }
}

/// The constructor names of the variants, in order.
pub open spec fn ctor_names(variants: Seq<String>, prefix: Seq<char>) -> Seq<Seq<char>> {
    Seq::new(variants.len(), |i: int| ctor_name(variants[i]@, prefix))
}

/// Whether the constructor name at `j` repeats an earlier one.
pub open spec fn repeats_earlier(names: Seq<Seq<char>>, j: int) -> bool {
    exists|i: int| 0 <= i < j && names[i] == names[j]
}

/// The constructor names of a set's variants; the first name that repeats
/// an earlier one is refused.
pub fn variant_constructor_names(variants: &Vec<String>, prefix: &str) -> (r: Result<Vec<String>, String>)
    ensures
        match r {
            Ok(names) => {
                &&& names@.len() == variants@.len()
                &&& forall|i: int| 0 <= i < names@.len() ==> #[trigger] names@[i]@ == ctor_names(variants@, prefix@)[i]
                &&& forall|j: int| 0 <= j < variants@.len() ==> !#[trigger] repeats_earlier(ctor_names(variants@, prefix@), j)
            },
            Err(name) => exists|j: int| 0 <= j < variants@.len()
                && #[trigger] repeats_earlier(ctor_names(variants@, prefix@), j)
                && name@ == ctor_names(variants@, prefix@)[j]
                && forall|k: int| 0 <= k < j ==> !#[trigger] repeats_earlier(ctor_names(variants@, prefix@), k),
        },
{
    let ghost all = ctor_names(variants@, prefix@);
    let mut names: Vec<String> = Vec::new();
    let mut j: usize = 0;
    while j < variants.len()
        invariant
            j <= variants@.len(),
            all == ctor_names(variants@, prefix@),
            names@.len() == j,
            forall|i: int| 0 <= i < j ==> #[trigger] names@[i]@ == all[i],
            forall|k: int| 0 <= k < j ==> !#[trigger] repeats_earlier(all, k),
        decreases variants@.len() - j,
    {
        let base = to_snake_case(variants[j].as_str());
        let mut name = String::new();
        if prefix.unicode_len() > 0 {
            append_str(&mut name, prefix);
            push_char(&mut name, '_');
        }
        append_str(&mut name, base.as_str());
        proof {
            if prefix@.len() == 0 {
                assert(name@ =~= snake_case(variants@[j as int]@));
            } else {
                assert(name@ =~= prefix@ + seq!['_'] + snake_case(variants@[j as int]@));
            }
            assert(name@ == all[j as int]);
        }
        match position_of(&names, name.as_str()) {
            Some(i) => {
                proof {
                    assert(all[i as int] == all[j as int]);
                    assert(repeats_earlier(all, j as int));
                }
                return Err(name);
            },
            None => {
                proof {
                    assert forall|i: int| 0 <= i < j implies all[i] != all[j as int] by {
                        if all[i] == all[j as int] {
                            assert(names@[i]@ == name@);
                            assert(names_have(names@, name@));
                        }
                    }
                }
            },
        }
        names.push(name);
        j = j + 1;
    }
    Ok(names)
}

/// The texts of a list of strings.
pub open spec fn texts(v: Seq<String>) -> Seq<Seq<char>> {
    v.map_values(|x: String| x@)
}

/// An attribute written on a set or a union: a derive list, read as its
/// paths, or any other attribute, kept as written.
#[derive(Debug)]
pub enum SetAttr {
    Derive(Vec<String>),
    Other(String),
}

/// The derive paths of the first `n` attributes, in the order written.
pub open spec fn attr_derives(attrs: Seq<SetAttr>, n: int) -> Seq<Seq<char>>
    decreases n,
{
    if n <= 0 {
        Seq::empty()
    } else {
        match attrs[n - 1] {
            SetAttr::Derive(l) => attr_derives(attrs, n - 1) + texts(l@),
            SetAttr::Other(_) => attr_derives(attrs, n - 1),
        }
    }
}

/// The attributes other than derives among the first `n`, in the order written.
pub open spec fn attr_passthrough(attrs: Seq<SetAttr>, n: int) -> Seq<Seq<char>>
    decreases n,
{
    if n <= 0 {
        Seq::empty()
    } else {
        match attrs[n - 1] {
            SetAttr::Derive(_) => attr_passthrough(attrs, n - 1),
            SetAttr::Other(t) => attr_passthrough(attrs, n - 1).push(t@),
        }
    }
}

/// The attributes of a generated enum: first one derive list holding every
/// derive path written, each once in first-occurrence order and with `Debug`
/// added when missing; then every other attribute, unchanged and in order.
pub fn merge_set_attrs(attrs: &Vec<SetAttr>) -> (r: Vec<SetAttr>)
    ensures
        r@.len() == 1 + attr_passthrough(attrs@, attrs@.len() as int).len(),
        r@[0] matches SetAttr::Derive(l) && texts(l@) == merged_derives(attr_derives(attrs@, attrs@.len() as int)),
        forall|i: int| 0 <= i < attr_passthrough(attrs@, attrs@.len() as int).len() ==>
            ((#[trigger] r@[i + 1]) matches SetAttr::Other(t) && t@ == attr_passthrough(attrs@, attrs@.len() as int)[i]),
{
    let mut derives: Vec<String> = Vec::new();
    let mut others: Vec<String> = Vec::new();
    let mut i: usize = 0;
    while i < attrs.len()
        invariant
            i <= attrs@.len(),
            texts(derives@) == attr_derives(attrs@, i as int),
            texts(others@) == attr_passthrough(attrs@, i as int),
        decreases attrs@.len() - i,
    {
        match &attrs[i] {
            SetAttr::Derive(list) => {
                let ghost before = texts(derives@);
                let mut j: usize = 0;
                while j < list.len()
                    invariant
                        j <= list@.len(),
                        texts(derives@) == before + texts(list@).take(j as int),
                    decreases list@.len() - j,
                {
                    let ghost dprev = derives@;
                    let c = list[j].clone();
                    assert(c@ == list@[j as int]@);
                    derives.push(c);
                    proof {
                        assert(derives@ == dprev.push(c));
                        assert(texts(derives@) =~= texts(dprev).push(c@));
                        assert(texts(list@).take(j as int + 1) =~= texts(list@).take(j as int).push(list@[j as int]@));
                        assert(texts(derives@) =~= before + texts(list@).take(j as int + 1));
                    }
                    j = j + 1;
                }
                proof {
                    assert(texts(list@).take(list@.len() as int) =~= texts(list@));
                }
            },
            SetAttr::Other(t) => {
                others.push(t.clone());
                proof {
                    assert(texts(others@) =~= attr_passthrough(attrs@, i as int).push(t@));
                }
            },
        }
        i = i + 1;
    }
    let merged = merge_debug_derive(&derives);
    let mut out: Vec<SetAttr> = Vec::new();
    out.push(SetAttr::Derive(merged));
    let ghost pass = texts(others@);
    let mut k: usize = 0;
    while k < others.len()
        invariant
            k <= others@.len(),
            pass == texts(others@),
            out@.len() == 1 + k,
            out@[0] matches SetAttr::Derive(l) && texts(l@) == merged_derives(texts(derives@)),
            forall|m: int| 0 <= m < k ==> ((#[trigger] out@[m + 1]) matches SetAttr::Other(t) && t@ == pass[m]),
        decreases others@.len() - k,
    {
        out.push(SetAttr::Other(others[k].clone()));
        k = k + 1;
    }
    out
}

/// A set by name, with its members.
#[derive(Debug)]
pub struct SetMembers {
    pub name: String,
    pub members: Vec<String>,
}

/// Whether the set at `inner` converts into the set at `outer`: they are
/// different sets and every member of the first is a member of the second.
pub open spec fn converts_between(sets: Seq<SetMembers>, outer: int, inner: int) -> bool {
    &&& sets[inner].name@ != sets[outer].name@
    &&& is_subset(texts(sets[inner].members@), texts(sets[outer].members@))
}

/// The conversions into the set at `outer` from the first `n` sets, as
/// `(outer, inner)` positions, in order.
pub open spec fn inner_pairs(sets: Seq<SetMembers>, outer: int, n: int) -> Seq<(usize, usize)>
    decreases n,
{
    if n <= 0 {
        Seq::empty()
    } else if converts_between(sets, outer, n - 1) {
        inner_pairs(sets, outer, n - 1).push((outer as usize, (n - 1) as usize))
    } else {
        inner_pairs(sets, outer, n - 1)
    }
}

/// The conversions into the first `n` sets, outer set by outer set.
pub open spec fn from_pairs(sets: Seq<SetMembers>, n: int) -> Seq<(usize, usize)>
    decreases n,
{
    if n <= 0 {
        Seq::empty()
    } else {
        from_pairs(sets, n - 1) + inner_pairs(sets, n - 1, sets.len() as int)
    }
}

/// The `From` conversions the set generator writes: for each outer set in
/// order, each other set whose members all belong to it, in order.
pub fn from_impl_pairs(sets: &Vec<SetMembers>) -> (r: Vec<(usize, usize)>)
    ensures
        r@ == from_pairs(sets@, sets@.len() as int),
{
    let n = sets.len();
    let mut out: Vec<(usize, usize)> = Vec::new();
    let mut o: usize = 0;
    while o < n
        invariant
            n == sets@.len(),
            o <= n,
            out@ == from_pairs(sets@, o as int),
        decreases n - o,
    {
        let ghost before = out@;
        let mut i: usize = 0;
        while i < n
            invariant
                n == sets@.len(),
                o < n,
                i <= n,
                out@ == before + inner_pairs(sets@, o as int, i as int),
            decreases n - i,
        {
            let different = !str_eq(sets[i].name.as_str(), sets[o].name.as_str());
            if different && converts_into(&sets[i].members, &sets[o].members) {
                out.push((o, i));
                proof {
                    assert(out@ =~= before + inner_pairs(sets@, o as int, i as int + 1));
                }
            } else {
                proof {
                    assert(inner_pairs(sets@, o as int, i as int + 1) == inner_pairs(sets@, o as int, i as int));
                }
            }
            i = i + 1;
        }
        o = o + 1;
    }
    out
}

/// A set never converts into itself, nor into a set of the same name; each
/// conversion the generator writes goes from a subset into a superset.
pub proof fn lemma_from_pairs_are_proper(sets: Seq<SetMembers>, n: int)
    requires
        0 <= n <= sets.len(),
        sets.len() <= usize::MAX,
    ensures
        forall|k: int| 0 <= k < from_pairs(sets, n).len() ==> {
            let p = #[trigger] from_pairs(sets, n)[k];
            &&& p.0 < sets.len()
            &&& p.1 < sets.len()
            &&& p.0 != p.1
            &&& converts_between(sets, p.0 as int, p.1 as int)
        },
    decreases n,
{
    if n > 0 {
        lemma_from_pairs_are_proper(sets, n - 1);
        lemma_inner_pairs_are_proper(sets, n - 1, sets.len() as int);
        let a = from_pairs(sets, n - 1);
        let b = inner_pairs(sets, n - 1, sets.len() as int);
        assert forall|k: int| 0 <= k < from_pairs(sets, n).len() implies {
            let p = #[trigger] from_pairs(sets, n)[k];
            &&& p.0 < sets.len()
            &&& p.1 < sets.len()
            &&& p.0 != p.1
            &&& converts_between(sets, p.0 as int, p.1 as int)
        } by {
            if k < a.len() {
                assert(from_pairs(sets, n)[k] == a[k]);
            } else {
                assert(from_pairs(sets, n)[k] == b[k - a.len()]);
            }
        }
    }
}

proof fn lemma_inner_pairs_are_proper(sets: Seq<SetMembers>, outer: int, n: int)
    requires
        0 <= outer < sets.len(),
        0 <= n <= sets.len(),
        sets.len() <= usize::MAX,
    ensures
        forall|k: int| 0 <= k < inner_pairs(sets, outer, n).len() ==> {
            let p = #[trigger] inner_pairs(sets, outer, n)[k];
            &&& p.0 == outer
            &&& p.1 < n
            &&& p.0 != p.1
            &&& converts_between(sets, p.0 as int, p.1 as int)
        },
    decreases n,
{
    if n > 0 {
        lemma_inner_pairs_are_proper(sets, outer, n - 1);
        let a = inner_pairs(sets, outer, n - 1);
        assert forall|k: int| 0 <= k < inner_pairs(sets, outer, n).len() implies {
            let p = #[trigger] inner_pairs(sets, outer, n)[k];
            &&& p.0 == outer
            &&& p.1 < n
            &&& p.0 != p.1
            &&& converts_between(sets, p.0 as int, p.1 as int)
        } by {
            if k < a.len() {
                assert(inner_pairs(sets, outer, n)[k] == a[k]);
            } else {
                assert(converts_between(sets, outer, n - 1));
                assert(inner_pairs(sets, outer, n)[k] == (outer as usize, (n - 1) as usize));
                assert(outer != n - 1);
            }
        }
    }
}

/// The name of the constructor that wraps a new variant value in a report.
pub open spec fn report_ctor_name(ctor: Seq<char>) -> Seq<char> {
    ctor + "_report"@
}

/// The report constructor's name for the constructor named `ctor`.
pub fn report_constructor_name(ctor: &str) -> (r: String)
    ensures
        r@ == report_ctor_name(ctor@),
{
    let mut out = String::new();
    append_str(&mut out, ctor);
    append_str(&mut out, "_report");
    out
}

/// Different constructor names give different report constructor names.
pub proof fn lemma_report_ctor_names_distinct(a: Seq<char>, b: Seq<char>)
    requires
        a != b,
    ensures
        report_ctor_name(a) != report_ctor_name(b),
{
    if report_ctor_name(a) == report_ctor_name(b) {
        assert(report_ctor_name(a).len() == report_ctor_name(b).len());
        assert(a =~= report_ctor_name(a).take(a.len() as int));
        assert(b =~= report_ctor_name(b).take(b.len() as int));
    }
}

} // verus!
