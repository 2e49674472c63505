//! The pretty rendering of a report: titled sections, one item per line,
//! each item line indented and starting with `- `.

use vstd::prelude::*;
use crate::attachment::{append_value_text, value_text, Attachment, ContextValue, opt_str_model};
use crate::error_code::{error_code_text, ErrorCode};
use crate::render::{Pretty, PrettyIndent, ReportRenderer, ReportRenderOptions};
use crate::report::{bool_text, has_metadata, DisplayCauseChain, Report, ReportMetadata, StackFrame, StackTrace, StackTraceFormat};
use crate::severity::severity_label;
use crate::source_chain::{display_type_name, opt_view, view_truncated, SourceErrorChain};
use crate::text::{append_str, append_u64, dec_nat, push_char};
use crate::trace::{trace_is_empty, ReportTrace, TraceContext, TraceEvent};

verus! {

/// One indentation step.
pub open spec fn indent_unit(i: PrettyIndent) -> Seq<char> {
    match i {
        PrettyIndent::Spaces(n) => Seq::new(n as nat, |k: int| ' '),
        PrettyIndent::Tab => seq!['\t'],
    }
}

/// `k` indentation steps.
pub open spec fn indent_times(unit: Seq<char>, k: nat) -> Seq<char>
    decreases k,
{
    if k == 0 { Seq::empty() } else { indent_times(unit, (k - 1) as nat) + unit }
}

/// A line: indentation, text, new line.
pub open spec fn line(indent: Seq<char>, text: Seq<char>) -> Seq<char> {
    indent + text + seq!['\n']
}

/// A title line, not indented.
pub open spec fn title(text: Seq<char>) -> Seq<char> {
    text + seq!['\n']
}

fn indent_string(i: PrettyIndent) -> (r: String)
    ensures
        r@ == indent_unit(i),
{
    match i {
        PrettyIndent::Spaces(n) => {
            let mut s = String::new();
            let mut k: u8 = 0;
            while k < n
                invariant
                    k <= n,
                    s@ =~= Seq::new(k as nat, |j: int| ' '),
                decreases n - k,
            {
                push_char(&mut s, ' ');
                k = k + 1;
            }
            s
        },
        PrettyIndent::Tab => {
            let mut s = String::new();
            push_char(&mut s, '\t');
            proof { assert(s@ =~= seq!['\t']); }
            s
        },
    }
}

fn write_indent_times(out: &mut String, unit: &str, k: usize)
    ensures
        final(out)@ == old(out)@ + indent_times(unit@, k as nat),
{
    let ghost start = out@;
    let mut j: usize = 0;
    while j < k
        invariant
            j <= k,
            out@ == start + indent_times(unit@, j as nat),
        decreases k - j,
    {
        append_str(out, unit);
        proof {
            assert(start + indent_times(unit@, j as nat) + unit@ =~= start + indent_times(unit@, (j + 1) as nat));
        }
        j = j + 1;
    }
    proof {
        assert(start + indent_times(unit@, 0) =~= start);
    }
}

fn end_line(out: &mut String)
    ensures
        final(out)@ == old(out)@ + seq!['\n'],
{
    push_char(out, '\n');
}

/// The error section: the message and, when shown, the type name.
pub open spec fn error_section(message: Seq<char>, type_label: Seq<char>, ind: Seq<char>, show_type: bool) -> Seq<char> {
    title("Error:"@) + line(ind, "- message: "@ + message)
        + (if show_type { line(ind, "- type: "@ + type_label) } else { Seq::empty() })
}

/// The governance lines of the set metadata fields.
pub open spec fn gov_lines(m: ReportMetadata, ind: Seq<char>) -> Seq<char> {
    (match m.error_code { Some(c) => line(ind, "- error_code: "@ + error_code_text(c@)), None => Seq::empty() })
    + (match m.severity { Some(s) => line(ind, "- severity: "@ + severity_label(s)), None => Seq::empty() })
    + (match m.category { Some(c) => line(ind, "- category: "@ + c@), None => Seq::empty() })
    + (match m.retryable { Some(b) => line(ind, "- retryable: "@ + bool_text(b)), None => Seq::empty() })
}

/// The governance section.
pub open spec fn governance_section(m: ReportMetadata, o: ReportRenderOptions, ind: Seq<char>) -> Seq<char> {
    if o.show_governance_section && (o.show_empty_sections || has_metadata(m)) {
        title("Governance:"@) + (if !has_metadata(m) { line(ind, "- (none)"@) } else { gov_lines(m, ind) })
    } else {
        Seq::empty()
    }
}

fn write_error_section(out: &mut String, message: &str, type_label: &str, ind: &str, show_type: bool)
    ensures
        final(out)@ == old(out)@ + error_section(message@, type_label@, ind@, show_type),
{
    let ghost start = out@;
    append_str(out, "Error:");
    end_line(out);
    append_str(out, ind);
    append_str(out, "- message: ");
    append_str(out, message);
    end_line(out);
    let ghost mid = out@;
    if show_type {
        append_str(out, ind);
        append_str(out, "- type: ");
        append_str(out, type_label);
        end_line(out);
    }
    proof {
        assert(mid =~= start + title("Error:"@) + line(ind@, "- message: "@ + message@));
        assert(out@ =~= start + error_section(message@, type_label@, ind@, show_type));
    }
}

fn write_labeled_line(out: &mut String, ind: &str, label: &str, value: &str)
    ensures
        final(out)@ == old(out)@ + line(ind@, label@ + value@),
{
    let ghost start = out@;
    append_str(out, ind);
    append_str(out, label);
    append_str(out, value);
    end_line(out);
    proof {
        assert(out@ =~= start + line(ind@, label@ + value@));
    }
}

fn write_gov_lines(out: &mut String, m: &ReportMetadata, ind: &str)
    ensures
        final(out)@ == old(out)@ + gov_lines(*m, ind@),
{
    let ghost start = out@;
    match &m.error_code {
        Some(c) => {
            let t = c.to_code_string();
            write_labeled_line(out, ind, "- error_code: ", t.as_str());
        },
        None => {},
    }
    let ghost a = out@;
    match m.severity {
        Some(s) => write_labeled_line(out, ind, "- severity: ", s.label()),
        None => {},
    }
    let ghost b = out@;
    match &m.category {
        Some(c) => write_labeled_line(out, ind, "- category: ", c.as_str()),
        None => {},
    }
    let ghost c = out@;
    match m.retryable {
        Some(r) => write_labeled_line(out, ind, "- retryable: ", if r { "true" } else { "false" }),
        None => {},
    }
    proof {
        assert(out@ =~= start + gov_lines(*m, ind@));
    }
}

fn write_governance_section(out: &mut String, m: &ReportMetadata, o: ReportRenderOptions, ind: &str)
    ensures
        final(out)@ == old(out)@ + governance_section(*m, o, ind@),
{
    let ghost start = out@;
    let has_meta = m.error_code.is_some() || m.severity.is_some() || m.category.is_some() || m.retryable.is_some();
    if o.show_governance_section && (o.show_empty_sections || has_meta) {
        append_str(out, "Governance:");
        end_line(out);
        if !has_meta {
            write_labeled_line(out, ind, "- (none)", "");
            proof { reveal_strlit(""); assert("- (none)"@ + ""@ =~= "- (none)"@); }
        } else {
            write_gov_lines(out, m, ind);
        }
        proof {
            assert(out@ =~= start + governance_section(*m, o, ind@));
        }
    } else {
        proof {
            assert(out@ =~= start + governance_section(*m, o, ind@));
        }
    }
}

pub open spec fn opt_id_line<const N: usize>(id: Option<crate::trace::HexId<N>>, label: Seq<char>, ind: Seq<char>) -> Seq<char> {
    match id { Some(v) => line(ind, label + v@), None => Seq::empty() }
}

/// The event lines `- event[i]: name` for events `from` onward, numbered from `from`.
pub open spec fn event_lines(events: Seq<TraceEvent>, ind: Seq<char>) -> Seq<char>
    decreases events.len(),
{
    if events.len() == 0 {
        Seq::empty()
    } else {
        event_lines(events.drop_last(), ind)
            + line(ind, "- event["@ + dec_nat((events.len() - 1) as nat) + "]: "@ + events.last().name@)
    }
}

/// The lines of a non-empty trace: the set context values, then the events.
pub open spec fn trace_lines(c: TraceContext, events: Seq<TraceEvent>, ind: Seq<char>) -> Seq<char> {
    context_lines(c, ind) + event_lines(events, ind)
}

/// The lines of the set context values.
pub open spec fn context_lines(c: TraceContext, ind: Seq<char>) -> Seq<char> {
    opt_id_line(c.trace_id, "- trace_id: "@, ind)
    + opt_id_line(c.span_id, "- span_id: "@, ind)
    + opt_id_line(c.parent_span_id, "- parent_span_id: "@, ind)
    + (match c.sampled { Some(b) => line(ind, "- sampled: "@ + bool_text(b)), None => Seq::empty() })
    + (match c.trace_state { Some(t) => line(ind, "- trace_state: "@ + t.value@), None => Seq::empty() })
    + (match c.flags { Some(f) => line(ind, "- flags: "@ + dec_nat(f.bits as nat)), None => Seq::empty() })
}

/// The trace section.
pub open spec fn trace_section(t: ReportTrace, o: ReportRenderOptions, ind: Seq<char>) -> Seq<char> {
    if o.show_trace_section && (o.show_empty_sections || !trace_is_empty(t)) {
        title("Trace:"@) + (if trace_is_empty(t) { line(ind, "- (none)"@) } else {
            trace_lines(crate::trace::trace_context_or_empty(t), t.events@, ind)
        })
    } else {
        Seq::empty()
    }
}

fn write_opt_id<const N: usize>(out: &mut String, id: &Option<crate::trace::HexId<N>>, label: &str, ind: &str)
    ensures
        final(out)@ == old(out)@ + opt_id_line(*id, label@, ind@),
{
    match id {
        Some(v) => write_labeled_line(out, ind, label, v.as_str()),
        None => {
            proof { assert(old(out)@ + Seq::<char>::empty() =~= old(out)@); }
        },
    }
}

#[verifier::spinoff_prover]
fn write_context_lines(out: &mut String, c: &TraceContext, ind: &str)
    ensures
        final(out)@ == old(out)@ + context_lines(*c, ind@),
{
    let ghost start = out@;
    write_opt_id(out, &c.trace_id, "- trace_id: ", ind);
    write_opt_id(out, &c.span_id, "- span_id: ", ind);
    write_opt_id(out, &c.parent_span_id, "- parent_span_id: ", ind);
    let ghost a = out@;
    match c.sampled {
        Some(b) => write_labeled_line(out, ind, "- sampled: ", if b { "true" } else { "false" }),
        None => {},
    }
    let ghost b = out@;
    match &c.trace_state {
        Some(t) => write_labeled_line(out, ind, "- trace_state: ", t.value.as_str()),
        None => {},
    }
    let ghost cc = out@;
    match c.flags {
        Some(f) => {
            let t = crate::text::u64_to_string(f.bits as u64);
            write_labeled_line(out, ind, "- flags: ", t.as_str());
        },
        None => {},
    }
    proof {
        assert(out@ =~= start + context_lines(*c, ind@));
    }
}

fn write_event_lines(out: &mut String, events: &Vec<TraceEvent>, ind: &str)
    ensures
        final(out)@ == old(out)@ + event_lines(events@, ind@),
{
    let ghost start = out@;
    let mut i: usize = 0;
    proof {
        assert(events@.take(0) =~= Seq::<TraceEvent>::empty());
        assert(start + event_lines(events@.take(0), ind@) =~= start);
    }
    while i < events.len()
        invariant
            i <= events@.len(),
            out@ == start + event_lines(events@.take(i as int), ind@),
        decreases events@.len() - i,
    {
        let ghost prev = out@;
        append_str(out, ind);
        append_str(out, "- event[");
        append_u64(out, i as u64);
        append_str(out, "]: ");
        append_str(out, events[i].name.as_str());
        end_line(out);
        proof {
            let t = events@.take(i as int + 1);
            assert(t.drop_last() =~= events@.take(i as int));
            assert(out@ =~= prev + line(ind@, "- event["@ + dec_nat(i as nat) + "]: "@ + events@[i as int].name@));
        }
        i = i + 1;
    }
    proof {
        assert(events@.take(events@.len() as int) =~= events@);
    }
}

fn write_trace_lines(out: &mut String, c: &TraceContext, events: &Vec<TraceEvent>, ind: &str)
    ensures
        final(out)@ == old(out)@ + trace_lines(*c, events@, ind@),
{
    let ghost start = out@;
    write_context_lines(out, c, ind);
    write_event_lines(out, events, ind);
    proof {
        assert(out@ =~= start + trace_lines(*c, events@, ind@));
    }
}

fn write_trace_section(out: &mut String, t: &ReportTrace, o: ReportRenderOptions, ind: &str)
    ensures
        final(out)@ == old(out)@ + trace_section(*t, o, ind@),
{
    let ghost start = out@;
    let empty = t.is_empty();
    if o.show_trace_section && (o.show_empty_sections || !empty) {
        append_str(out, "Trace:");
        end_line(out);
        if empty {
            write_labeled_line(out, ind, "- (none)", "");
            proof { reveal_strlit(""); assert("- (none)"@ + ""@ =~= "- (none)"@); }
        } else {
            match &t.context {
                Some(c) => write_trace_lines(out, c, &t.events, ind),
                None => write_trace_lines(out, &TraceContext::new(), &t.events, ind),
            }
        }
        proof {
            assert(out@ =~= start + trace_section(*t, o, ind@));
        }
    } else {
        proof {
            assert(out@ =~= start + trace_section(*t, o, ind@));
        }
    }
}

/// Debug escaping of one character inside a quoted string.
pub open spec fn debug_escape_char(c: char) -> Seq<char> {
    if c == '"' { seq!['\\', '"'] }
    else if c == '\\' { seq!['\\', '\\'] }
    else if c == '\n' { seq!['\\', 'n'] }
    else if c == '\r' { seq!['\\', 'r'] }
    else if c == '\t' { seq!['\\', 't'] }
    else if c == '\0' { seq!['\\', '0'] }
    else if (c as u32) < 0x20 || c as u32 == 0x7f {
        if (c as u32) < 0x10 {
            seq!['\\', 'u', '{', crate::text::hex_digit(c as u32 as int)] + seq!['}']
        } else {
            seq!['\\', 'u', '{', crate::text::hex_digit((c as u32 / 16) as int), crate::text::hex_digit((c as u32 % 16) as int), '}']
        }
    }
    else { seq![c] }
}

pub open spec fn debug_escape(s: Seq<char>) -> Seq<char>
    decreases s.len(),
{
    if s.len() == 0 { Seq::empty() } else { debug_escape(s.drop_last()) + debug_escape_char(s.last()) }
}

/// The debug form of an optional string: `None`, or `Some("..")` escaped.
pub open spec fn debug_opt_str(o: Option<Seq<char>>) -> Seq<char> {
    match o {
        Some(s) => "Some(\""@ + debug_escape(s) + "\")"@,
        None => "None"@,
    }
}

/// The debug form of an optional number.
pub open spec fn debug_opt_u32(o: Option<u32>) -> Seq<char> {
    match o {
        Some(n) => "Some("@ + dec_nat(n as nat) + ")"@,
        None => "None"@,
    }
}

fn hex_char(d: u32) -> (c: char)
    requires
        d < 16,
    ensures
        c == crate::text::hex_digit(d as int),
{
    if d < 10 {
        crate::text::digit_to_char(d as u64)
    } else if d == 10 { 'a' } else if d == 11 { 'b' } else if d == 12 { 'c' }
    else if d == 13 { 'd' } else if d == 14 { 'e' } else { 'f' }
}

fn append_debug_char(out: &mut String, c: char)
    ensures
        final(out)@ == old(out)@ + debug_escape_char(c),
{
    let ghost start = out@;
    if c == '"' {
        push_char(out, '\\'); push_char(out, '"');
    } else if c == '\\' {
        push_char(out, '\\'); push_char(out, '\\');
    } else if c == '\n' {
        push_char(out, '\\'); push_char(out, 'n');
    } else if c == '\r' {
        push_char(out, '\\'); push_char(out, 'r');
    } else if c == '\t' {
        push_char(out, '\\'); push_char(out, 't');
    } else if c == '\0' {
        push_char(out, '\\'); push_char(out, '0');
    } else if (c as u32) < 0x20 || c as u32 == 0x7f {
        push_char(out, '\\'); push_char(out, 'u'); push_char(out, '{');
        let v = c as u32;
        if v < 0x10 {
            push_char(out, hex_char(v));
        } else {
            push_char(out, hex_char(v / 16));
            push_char(out, hex_char(v % 16));
        }
        push_char(out, '}');
    } else {
        push_char(out, c);
    }
    proof {
        assert(out@ =~= start + debug_escape_char(c));
    }
}

fn append_debug_opt_str(out: &mut String, o: &Option<String>)
    ensures
        final(out)@ == old(out)@ + debug_opt_str(opt_view(*o)),
{
    let ghost start = out@;
    match o {
        None => append_str(out, "None"),
        Some(s) => {
            append_str(out, "Some(\"");
            let n = s.as_str().unicode_len();
            let mut i: usize = 0;
            let ghost mid = out@;
            while i < n
                invariant
                    n == s@.len(),
                    i <= n,
                    out@ == mid + debug_escape(s@.take(i as int)),
                decreases n - i,
            {
                let c = s.as_str().get_char(i);
                append_debug_char(out, c);
                proof {
                    assert(s@.take(i as int + 1).drop_last() =~= s@.take(i as int));
                }
                i = i + 1;
            }
            append_str(out, "\")");
            proof {
                assert(s@.take(n as int) =~= s@);
                assert(out@ =~= start + debug_opt_str(opt_view(*o)));
            }
        },
    }
}

fn append_debug_opt_u32(out: &mut String, o: Option<u32>)
    ensures
        final(out)@ == old(out)@ + debug_opt_u32(o),
{
    let ghost start = out@;
    match o {
        None => append_str(out, "None"),
        Some(n) => {
            append_str(out, "Some(");
            append_u64(out, n as u64);
            append_str(out, ")");
            proof {
                assert(out@ =~= start + debug_opt_u32(o));
            }
        },
    }
}

/// The line of frame `i`.
pub open spec fn frame_line(i: nat, f: StackFrame, ind: Seq<char>) -> Seq<char> {
    line(ind, "- frame["@ + dec_nat(i) + "]: symbol="@ + debug_opt_str(opt_view(f.symbol))
        + ", module="@ + debug_opt_str(opt_view(f.module))
        + ", file="@ + debug_opt_str(opt_view(f.file))
        + ", line="@ + debug_opt_u32(f.line)
        + ", column="@ + debug_opt_u32(f.column))
}

pub open spec fn frame_lines(frames: Seq<StackFrame>, ind: Seq<char>) -> Seq<char>
    decreases frames.len(),
{
    if frames.len() == 0 { Seq::empty() } else {
        frame_lines(frames.drop_last(), ind) + frame_line((frames.len() - 1) as nat, frames.last(), ind)
    }
}

fn write_frame_line(out: &mut String, i: usize, f: &StackFrame, ind: &str)
    ensures
        final(out)@ == old(out)@ + frame_line(i as nat, *f, ind@),
{
    let ghost start = out@;
    append_str(out, ind);
    append_str(out, "- frame[");
    append_u64(out, i as u64);
    append_str(out, "]: symbol=");
    append_debug_opt_str(out, &f.symbol);
    let ghost p1 = "- frame["@ + dec_nat(i as nat) + "]: symbol="@ + debug_opt_str(opt_view(f.symbol));
    assert(out@ =~= start + ind@ + p1);
    append_str(out, ", module=");
    append_debug_opt_str(out, &f.module);
    let ghost p2 = p1 + ", module="@ + debug_opt_str(opt_view(f.module));
    assert(out@ =~= start + ind@ + p2);
    append_str(out, ", file=");
    append_debug_opt_str(out, &f.file);
    let ghost p3 = p2 + ", file="@ + debug_opt_str(opt_view(f.file));
    assert(out@ =~= start + ind@ + p3);
    append_str(out, ", line=");
    append_debug_opt_u32(out, f.line);
    let ghost p4 = p3 + ", line="@ + debug_opt_u32(f.line);
    assert(out@ =~= start + ind@ + p4);
    append_str(out, ", column=");
    append_debug_opt_u32(out, f.column);
    let ghost p5 = p4 + ", column="@ + debug_opt_u32(f.column);
    assert(out@ =~= start + ind@ + p5);
    end_line(out);
    proof {
        assert(out@ =~= start + line(ind@, p5));
    }
}

fn write_frame_lines(out: &mut String, frames: &Vec<StackFrame>, ind: &str)
    ensures
        final(out)@ == old(out)@ + frame_lines(frames@, ind@),
{
    let ghost start = out@;
    let mut i: usize = 0;
    proof {
        assert(frames@.take(0) =~= Seq::<StackFrame>::empty());
        assert(start + frame_lines(frames@.take(0), ind@) =~= start);
    }
    while i < frames.len()
        invariant
            i <= frames@.len(),
            out@ == start + frame_lines(frames@.take(i as int), ind@),
        decreases frames@.len() - i,
    {
        write_frame_line(out, i, &frames[i], ind);
        proof {
            assert(frames@.take(i as int + 1).drop_last() =~= frames@.take(i as int));
        }
        i = i + 1;
    }
    proof {
        assert(frames@.take(frames@.len() as int) =~= frames@);
    }
}

/// The index of the first new line at or after `i`, or the length.
pub open spec fn next_newline(s: Seq<char>, i: int) -> int
    decreases s.len() - i,
{
    if i >= s.len() { s.len() as int } else if s[i] == '\n' { i } else { next_newline(s, i + 1) }
}

pub open spec fn strip_cr(l: Seq<char>) -> Seq<char> {
    if l.len() > 0 && l.last() == '\r' { l.drop_last() } else { l }
}

/// The lines of `s` from position `i`, as `str::lines` splits them: at each
/// new line, dropping a carriage return before it, with no empty last line.
pub open spec fn lines_from(s: Seq<char>, i: int) -> Seq<Seq<char>>
    decreases s.len() - i,
{
    if i >= s.len() || i < 0 {
        Seq::empty()
    } else {
        let e = next_newline(s, i);
        if e < i { Seq::empty() } else if e >= s.len() {
            seq![strip_cr(s.subrange(i, e))]
        } else {
            seq![strip_cr(s.subrange(i, e))] + lines_from(s, e + 1)
        }
    }
}

proof fn lemma_next_newline(s: Seq<char>, i: int)
    requires
        0 <= i <= s.len(),
    ensures
        i <= next_newline(s, i) <= s.len(),
        next_newline(s, i) < s.len() ==> s[next_newline(s, i)] == '\n',
        forall|k: int| i <= k < next_newline(s, i) ==> s[k] != '\n',
    decreases s.len() - i,
{
    if i < s.len() && s[i] != '\n' {
        lemma_next_newline(s, i + 1);
    }
}

/// Splits `s` into lines.
pub fn split_lines(s: &str) -> (r: Vec<String>)
    ensures
        r@.map_values(|l: String| l@) == lines_from(s@, 0),
{
    let n = s.unicode_len();
    let mut out: Vec<String> = Vec::new();
    let mut i: usize = 0;
    while i < n
        invariant
            n == s@.len(),
            i <= n,
            out@.map_values(|l: String| l@) + lines_from(s@, i as int) == lines_from(s@, 0),
        decreases n - i,
    {
        let ghost start_i = i;
        let mut cur = String::new();
        let mut j: usize = i;
        proof { lemma_next_newline(s@, i as int); }
        while j < n && s.get_char(j) != '\n'
            invariant
                n == s@.len(),
                i <= j <= n,
                j <= next_newline(s@, i as int),
                cur@ == s@.subrange(i as int, j as int),
                i <= next_newline(s@, i as int) <= n,
                forall|k: int| i <= k < next_newline(s@, i as int) ==> s@[k] != '\n',
                next_newline(s@, i as int) < n ==> s@[next_newline(s@, i as int)] == '\n',
            decreases n - j,
        {
            let c = s.get_char(j);
            push_char(&mut cur, c);
            proof {
                assert(s@.subrange(i as int, j as int + 1) =~= s@.subrange(i as int, j as int).push(c));
            }
            j = j + 1;
        }
        proof {
            assert(j == next_newline(s@, i as int));
        }
        let len = cur.as_str().unicode_len();
        let line_text = if len > 0 && cur.as_str().get_char(len - 1) == '\r' {
            let t = cur.as_str().substring_char(0, len - 1);
            crate::text::str_to_string(t)
        } else {
            cur
        };
        proof {
            if len > 0 && s@.subrange(i as int, j as int).last() == '\r' {
                assert(s@.subrange(i as int, j as int).subrange(0, len - 1) =~= s@.subrange(i as int, j as int).drop_last());
            }
        }
        let ghost before = out@;
        out.push(line_text);
        proof {
            assert(out@.map_values(|l: String| l@) =~= before.map_values(|l: String| l@).push(strip_cr(s@.subrange(i as int, j as int))));
        }
        if j < n {
            proof {
                assert(lines_from(s@, i as int) == seq![strip_cr(s@.subrange(i as int, j as int))] + lines_from(s@, j as int + 1));
                assert(out@.map_values(|l: String| l@) + lines_from(s@, j as int + 1)
                    =~= before.map_values(|l: String| l@) + lines_from(s@, i as int));
            }
            i = j + 1;
        } else {
            proof {
                assert(lines_from(s@, i as int) == seq![strip_cr(s@.subrange(i as int, j as int))]);
                assert(lines_from(s@, n as int) =~= Seq::<Seq<char>>::empty());
                assert(out@.map_values(|l: String| l@) + lines_from(s@, n as int)
                    =~= before.map_values(|l: String| l@) + lines_from(s@, i as int));
            }
            i = n;
        }
    }
    proof {
        assert(lines_from(s@, n as int) =~= Seq::<Seq<char>>::empty());
        assert(out@.map_values(|l: String| l@) + Seq::<Seq<char>>::empty() =~= out@.map_values(|l: String| l@));
    }
    out
}

/// `- line` for each line given.
pub open spec fn dash_lines(lines: Seq<Seq<char>>, ind: Seq<char>) -> Seq<char>
    decreases lines.len(),
{
    if lines.len() == 0 { Seq::empty() } else { dash_lines(lines.drop_last(), ind) + line(ind, "- "@ + lines.last()) }
}

/// The raw stack-trace lines: at most `max` of them, then a note when more
/// were cut; `- (empty)` when there is no raw text.
pub open spec fn raw_lines(raw: Option<Seq<char>>, max: usize, ind: Seq<char>) -> Seq<char> {
    match raw {
        Some(r) => {
            let ls = lines_from(r, 0);
            dash_lines(ls.take(if ls.len() <= max { ls.len() as int } else { max as int }), ind)
                + (if ls.len() > max { line(ind, "- ... truncated stack trace output"@) } else { Seq::empty() })
        },
        None => line(ind, "- (empty)"@),
    }
}

pub open spec fn format_debug(f: StackTraceFormat) -> Seq<char> {
    match f { StackTraceFormat::Native => "Native"@, StackTraceFormat::Raw => "Raw"@ }
}

/// The stack-trace section.
pub open spec fn stack_section(st: Option<StackTrace>, o: ReportRenderOptions, ind: Seq<char>) -> Seq<char> {
    if !o.show_stack_trace_section || (!o.show_empty_sections && st is None) {
        Seq::empty()
    } else {
        title("Stack Trace:"@) + match st {
            None => line(ind, "- (none)"@),
            Some(t) => line(ind, "- format: "@ + format_debug(t.format)) + (
                if o.stack_trace_include_frames && t.frames@.len() > 0 { frame_lines(t.frames@, ind) }
                else if o.stack_trace_include_raw { raw_lines(opt_view(t.raw), o.stack_trace_max_lines, ind) }
                else { line(ind, "- (hidden by options)"@) }),
        }
    }
}

fn write_dash_lines(out: &mut String, lines: &Vec<String>, count: usize, ind: &str)
    requires
        count <= lines@.len(),
    ensures
        final(out)@ == old(out)@ + dash_lines(lines@.map_values(|l: String| l@).take(count as int), ind@),
{
    let ghost start = out@;
    let ghost ls = lines@.map_values(|l: String| l@);
    let mut i: usize = 0;
    proof {
        assert(ls.take(0) =~= Seq::<Seq<char>>::empty());
        assert(start + dash_lines(ls.take(0), ind@) =~= start);
    }
    while i < count
        invariant
            count <= lines@.len(),
            ls == lines@.map_values(|l: String| l@),
            i <= count,
            out@ == start + dash_lines(ls.take(i as int), ind@),
        decreases count - i,
    {
        let ghost prev = out@;
        append_str(out, ind);
        append_str(out, "- ");
        append_str(out, lines[i].as_str());
        end_line(out);
        proof {
            assert(ls.take(i as int + 1).drop_last() =~= ls.take(i as int));
            assert(ls[i as int] == lines@[i as int]@);
            assert(out@ =~= prev + line(ind@, "- "@ + ls[i as int]));
        }
        i = i + 1;
    }
}

fn write_raw_lines(out: &mut String, raw: &Option<String>, max: usize, ind: &str)
    ensures
        final(out)@ == old(out)@ + raw_lines(opt_view(*raw), max, ind@),
{
    let ghost start = out@;
    match raw {
        Some(r) => {
            let ls = split_lines(r.as_str());
            let ghost lsv = ls@.map_values(|l: String| l@);
            let count = if ls.len() <= max { ls.len() } else { max };
            write_dash_lines(out, &ls, count, ind);
            let ghost mid = out@;
            if ls.len() > max {
                write_labeled_line(out, ind, "- ... truncated stack trace output", "");
                proof { reveal_strlit(""); assert("- ... truncated stack trace output"@ + ""@ =~= "- ... truncated stack trace output"@); }
            }
            proof {
                assert(lsv.len() == ls@.len());
                assert(out@ =~= start + raw_lines(opt_view(*raw), max, ind@));
            }
        },
        None => {
            write_labeled_line(out, ind, "- (empty)", "");
            proof { reveal_strlit(""); assert("- (empty)"@ + ""@ =~= "- (empty)"@); }
        },
    }
}

fn write_stack_section(out: &mut String, st: &Option<StackTrace>, o: ReportRenderOptions, ind: &str)
    ensures
        final(out)@ == old(out)@ + stack_section(*st, o, ind@),
{
    let ghost start = out@;
    if !o.show_stack_trace_section || (!o.show_empty_sections && st.is_none()) {
        proof { assert(out@ =~= start + stack_section(*st, o, ind@)); }
        return;
    }
    append_str(out, "Stack Trace:");
    end_line(out);
    match st {
        None => {
            write_labeled_line(out, ind, "- (none)", "");
            proof { reveal_strlit(""); assert("- (none)"@ + ""@ =~= "- (none)"@); }
        },
        Some(t) => {
            let label = match t.format { StackTraceFormat::Native => "Native", StackTraceFormat::Raw => "Raw" };
            write_labeled_line(out, ind, "- format: ", label);
            if o.stack_trace_include_frames && t.frames.len() > 0 {
                write_frame_lines(out, &t.frames, ind);
            } else if o.stack_trace_include_raw {
                write_raw_lines(out, &t.raw, o.stack_trace_max_lines, ind);
            } else {
                write_labeled_line(out, ind, "- (hidden by options)", "");
                proof { reveal_strlit(""); assert("- (hidden by options)"@ + ""@ =~= "- (hidden by options)"@); }
            }
        },
    }
    proof { assert(out@ =~= start + stack_section(*st, o, ind@)); }
}

/// `- key: value` for each context entry.
pub open spec fn context_entry_lines(entries: Seq<(String, ContextValue)>, ind: Seq<char>) -> Seq<char>
    decreases entries.len(),
{
    if entries.len() == 0 { Seq::empty() } else {
        context_entry_lines(entries.drop_last(), ind)
            + line(ind, "- "@ + entries.last().0@ + ": "@ + value_text(entries.last().1@))
    }
}

/// The context section.
pub open spec fn context_section(entries: Seq<(String, ContextValue)>, o: ReportRenderOptions, ind: Seq<char>) -> Seq<char> {
    if !o.show_context_section {
        Seq::empty()
    } else if entries.len() > 0 {
        title("Context:"@) + context_entry_lines(entries, ind)
    } else if o.show_empty_sections {
        title("Context:"@) + line(ind, "- (none)"@)
    } else {
        Seq::empty()
    }
}

fn write_context_section(out: &mut String, entries: &Vec<(String, ContextValue)>, o: ReportRenderOptions, ind: &str)
    ensures
        final(out)@ == old(out)@ + context_section(entries@, o, ind@),
{
    let ghost start = out@;
    if !o.show_context_section {
        proof { assert(out@ =~= start); }
        return;
    }
    if entries.len() > 0 {
        append_str(out, "Context:");
        end_line(out);
        let ghost base = out@;
        let mut i: usize = 0;
        proof {
            assert(entries@.take(0) =~= Seq::<(String, ContextValue)>::empty());
            assert(base + context_entry_lines(entries@.take(0), ind@) =~= base);
        }
        while i < entries.len()
            invariant
                i <= entries@.len(),
                out@ == base + context_entry_lines(entries@.take(i as int), ind@),
            decreases entries@.len() - i,
        {
            let ghost prev = out@;
            append_str(out, ind);
            append_str(out, "- ");
            append_str(out, entries[i].0.as_str());
            append_str(out, ": ");
            append_value_text(out, &entries[i].1);
            end_line(out);
            proof {
                assert(entries@.take(i as int + 1).drop_last() =~= entries@.take(i as int));
                assert(out@ =~= prev + line(ind@, "- "@ + entries@[i as int].0@ + ": "@ + value_text(entries@[i as int].1@)));
            }
            i = i + 1;
        }
        proof {
            assert(entries@.take(entries@.len() as int) =~= entries@);
            assert(out@ =~= start + context_section(entries@, o, ind@));
        }
    } else if o.show_empty_sections {
        append_str(out, "Context:");
        end_line(out);
        write_labeled_line(out, ind, "- (none)", "");
        proof {
            reveal_strlit("");
            assert("- (none)"@ + ""@ =~= "- (none)"@);
            assert(out@ =~= start + context_section(entries@, o, ind@));
        }
    } else {
        proof { assert(out@ =~= start + context_section(entries@, o, ind@)); }
    }
}

/// The line of one attachment.
pub open spec fn attachment_line(a: Attachment, ind: Seq<char>) -> Seq<char> {
    match a {
        Attachment::Note { message } => line(ind, "- note: "@ + message@),
        Attachment::Payload { name, value, media_type } => match media_type {
            Some(mt) => line(ind, "- payload "@ + name@ + " ("@ + mt@ + "): "@ + value_text(value@)),
            None => line(ind, "- payload "@ + name@ + ": "@ + value_text(value@)),
        },
    }
}

pub open spec fn attachment_lines(atts: Seq<Attachment>, ind: Seq<char>) -> Seq<char>
    decreases atts.len(),
{
    if atts.len() == 0 { Seq::empty() } else { attachment_lines(atts.drop_last(), ind) + attachment_line(atts.last(), ind) }
}

/// The attachments section.
pub open spec fn attachments_section(atts: Seq<Attachment>, o: ReportRenderOptions, ind: Seq<char>) -> Seq<char> {
    if !o.show_attachments_section {
        Seq::empty()
    } else if atts.len() > 0 {
        title("Attachments:"@) + attachment_lines(atts, ind)
    } else if o.show_empty_sections {
        title("Attachments:"@) + line(ind, "- (none)"@)
    } else {
        Seq::empty()
    }
}

fn write_attachment_line(out: &mut String, a: &Attachment, ind: &str)
    ensures
        final(out)@ == old(out)@ + attachment_line(*a, ind@),
{
    let ghost start = out@;
    append_str(out, ind);
    match a {
        Attachment::Note { message } => {
            append_str(out, "- note: ");
            append_str(out, message.as_str());
        },
        Attachment::Payload { name, value, media_type } => {
            append_str(out, "- payload ");
            append_str(out, name.as_str());
            match media_type {
                Some(mt) => {
                    append_str(out, " (");
                    append_str(out, mt.as_str());
                    append_str(out, "): ");
                },
                None => {
                    append_str(out, ": ");
                },
            }
            append_value_text(out, value);
        },
    }
    end_line(out);
    proof { assert(out@ =~= start + attachment_line(*a, ind@)); }
}

fn write_attachments_section(out: &mut String, atts: &Vec<Attachment>, o: ReportRenderOptions, ind: &str)
    ensures
        final(out)@ == old(out)@ + attachments_section(atts@, o, ind@),
{
    let ghost start = out@;
    if !o.show_attachments_section {
        proof { assert(out@ =~= start); }
        return;
    }
    if atts.len() > 0 {
        append_str(out, "Attachments:");
        end_line(out);
        let ghost base = out@;
        let mut i: usize = 0;
        proof {
            assert(atts@.take(0) =~= Seq::<Attachment>::empty());
            assert(base + attachment_lines(atts@.take(0), ind@) =~= base);
        }
        while i < atts.len()
            invariant
                i <= atts@.len(),
                out@ == base + attachment_lines(atts@.take(i as int), ind@),
            decreases atts@.len() - i,
        {
            write_attachment_line(out, &atts[i], ind);
            proof {
                assert(atts@.take(i as int + 1).drop_last() =~= atts@.take(i as int));
            }
            i = i + 1;
        }
        proof {
            assert(atts@.take(atts@.len() as int) =~= atts@);
            assert(out@ =~= start + attachments_section(atts@, o, ind@));
        }
    } else if o.show_empty_sections {
        append_str(out, "Attachments:");
        end_line(out);
        write_labeled_line(out, ind, "- (none)", "");
        proof {
            reveal_strlit("");
            assert("- (none)"@ + ""@ =~= "- (none)"@);
            assert(out@ =~= start + attachments_section(atts@, o, ind@));
        }
    } else {
        proof { assert(out@ =~= start + attachments_section(atts@, o, ind@)); }
    }
}

/// `k. cause` for each cause, numbered from one.
pub open spec fn cause_lines(items: Seq<String>, ind: Seq<char>) -> Seq<char>
    decreases items.len(),
{
    if items.len() == 0 { Seq::empty() } else {
        cause_lines(items.drop_last(), ind) + line(ind, dec_nat(items.len() as nat) + ". "@ + items.last()@)
    }
}

/// The display-cause section: the causes within the depth limit, then notes
/// for truncation and cycles.
pub open spec fn display_causes_section(dc: Option<DisplayCauseChain>, o: ReportRenderOptions, ind: Seq<char>) -> Seq<char> {
    if !o.show_cause_chains_section {
        Seq::empty()
    } else {
        let items = match dc {
            Some(c) => c.items@.take(crate::render_json::visible_causes(c.items@.len(), o.max_source_depth) as int),
            None => Seq::empty(),
        };
        let trunc = match dc { Some(c) => c.truncated || c.items@.len() > o.max_source_depth, None => false };
        let cyc = match dc { Some(c) => c.cycle_detected, None => false };
        let header = items.len() > 0 || o.show_empty_sections || trunc || cyc;
        (if header { title("Display Causes:"@) + cause_lines(items, ind) } else { Seq::empty() })
        + (if header && items.len() == 0 && o.show_empty_sections { line(ind, "- (none)"@) } else { Seq::empty() })
        + (if header && trunc { line(ind, "- ... truncated by max_source_depth"@) } else { Seq::empty() })
        + (if header && cyc { line(ind, "- ... cycle detected and traversal stopped"@) } else { Seq::empty() })
    }
}

fn write_note_line(out: &mut String, ind: &str, text: &str)
    ensures
        final(out)@ == old(out)@ + line(ind@, text@),
{
    let ghost start = out@;
    append_str(out, ind);
    append_str(out, text);
    end_line(out);
    proof { assert(out@ =~= start + line(ind@, text@)); }
}

fn write_display_causes_section(out: &mut String, dc: &Option<DisplayCauseChain>, o: ReportRenderOptions, ind: &str)
    ensures
        final(out)@ == old(out)@ + display_causes_section(*dc, o, ind@),
{
    let ghost start = out@;
    if !o.show_cause_chains_section {
        proof { assert(out@ =~= start); }
        return;
    }
    let empty: Vec<String> = Vec::new();
    let (items, count, trunc, cyc) = match dc {
        Some(c) => {
            let n = if c.items.len() <= o.max_source_depth { c.items.len() } else { o.max_source_depth };
            (&c.items, n, c.truncated || c.items.len() > o.max_source_depth, c.cycle_detected)
        },
        None => (&empty, 0, false, false),
    };
    let ghost shown = items@.take(count as int);
    let header = count > 0 || o.show_empty_sections || trunc || cyc;
    if header {
        append_str(out, "Display Causes:");
        end_line(out);
        let ghost base = out@;
        let mut i: usize = 0;
        proof {
            assert(shown.take(0) =~= Seq::<String>::empty());
            assert(base + cause_lines(shown.take(0), ind@) =~= base);
        }
        while i < count
            invariant
                count <= items@.len(),
                shown == items@.take(count as int),
                i <= count,
                out@ == base + cause_lines(shown.take(i as int), ind@),
            decreases count - i,
        {
            let ghost prev = out@;
            append_str(out, ind);
            append_u64(out, (i + 1) as u64);
            append_str(out, ". ");
            append_str(out, items[i].as_str());
            end_line(out);
            proof {
                assert(shown.take(i as int + 1).drop_last() =~= shown.take(i as int));
                assert(shown.take(i as int + 1).len() == i + 1);
                assert(out@ =~= prev + line(ind@, dec_nat((i + 1) as nat) + ". "@ + shown[i as int]@));
            }
            i = i + 1;
        }
        proof {
            assert(shown.take(count as int) =~= shown);
        }
    }
    let ghost after_items = out@;
    if header && count == 0 && o.show_empty_sections {
        write_note_line(out, ind, "- (none)");
    }
    let ghost a1 = out@;
    if header && trunc {
        write_note_line(out, ind, "- ... truncated by max_source_depth");
    }
    let ghost a2 = out@;
    if header && cyc {
        write_note_line(out, ind, "- ... cycle detected and traversal stopped");
    }
    proof {
        assert(out@ =~= start + display_causes_section(*dc, o, ind@));
    }
}

/// The lines of source node `id` at depth `d`: its message, its type when
/// shown, and its sources one level deeper while within the depth limit.
pub open spec fn src_node_lines(c: SourceErrorChain, id: usize, d: int, max: int, unit: Seq<char>, show_type: bool, hide: bool) -> Seq<char>
    decreases max - d, 0int,
{
    let n = c.nodes@[id as int];
    let ind = indent_times(unit, d as nat);
    src_node_head(n, ind, show_type, hide)
    + (if n.source_roots@.len() > 0 && d + 1 <= max {
        line(indent_times(unit, (d + 1) as nat), "- source:"@) + src_lines(c, n.source_roots@, d + 1, max, unit, show_type, hide)
    } else { Seq::empty() })
}

/// The lines of the nodes `ids` at depth `d`; ids naming no node are skipped.
pub open spec fn src_lines(c: SourceErrorChain, ids: Seq<usize>, d: int, max: int, unit: Seq<char>, show_type: bool, hide: bool) -> Seq<char>
    decreases max - d, 1int, ids.len(),
{
    if ids.len() == 0 {
        Seq::empty()
    } else {
        let rest = src_lines(c, ids.drop_last(), d, max, unit, show_type, hide);
        if ids.last() < c.nodes@.len() { rest + src_node_lines(c, ids.last(), d, max, unit, show_type, hide) } else { rest }
    }
}

/// The node lines of a chain, or `- (none)` for a chain without roots.
pub open spec fn chain_body(c: SourceErrorChain, o: ReportRenderOptions, unit: Seq<char>, hide: bool) -> Seq<char> {
    if c.roots@.len() == 0 {
        if o.show_empty_sections { line(unit, "- (none)"@) } else { Seq::empty() }
    } else if 1 <= o.max_source_depth {
        src_lines(c, c.roots@, 1, o.max_source_depth as int, unit, o.show_type_name, hide)
    } else { Seq::empty() }
}

/// The notes for a truncated chain and for a detected cycle.
pub open spec fn flag_notes(truncated: bool, cycle: bool, unit: Seq<char>) -> Seq<char> {
    (if truncated { line(unit, "- ... truncated by max_source_depth"@) } else { Seq::empty() })
    + (if cycle { line(unit, "- ... cycle detected and repeated branch skipped"@) } else { Seq::empty() })
}

/// A source-error section with the given title.
pub open spec fn source_section(chain: Option<SourceErrorChain>, o: ReportRenderOptions, unit: Seq<char>, heading: Seq<char>, hide: bool) -> Seq<char> {
    if !o.show_cause_chains_section {
        Seq::empty()
    } else {
        match chain {
            None => if o.show_empty_sections { title(heading) + line(unit, "- (none)"@) } else { Seq::empty() },
            Some(c) => {
                let t = view_truncated(c, o.max_source_depth as int);
                let cy = c.cycle_detected && o.detect_source_cycle;
                (if o.show_empty_sections || c.roots@.len() > 0 || t || cy { title(heading) } else { Seq::empty() })
                + chain_body(c, o, unit, hide)
                + flag_notes(t, cy, unit)
            },
        }
    }
}

/// The message and type lines of a source node.
pub open spec fn src_node_head(n: crate::source_chain::SourceErrorItem, ind: Seq<char>, show_type: bool, hide: bool) -> Seq<char> {
    line(ind, "- message: "@ + n.message@)
    + (if show_type {
        line(ind, "- type: "@ + match display_type_name(opt_view(n.type_label), hide) { Some(t) => t, None => "null"@ })
    } else { Seq::empty() })
}

fn write_src_head(out: &mut String, n: &crate::source_chain::SourceErrorItem, d: usize, unit: &str, show_type: bool, hide: bool)
    ensures
        final(out)@ == old(out)@ + src_node_head(*n, indent_times(unit@, d as nat), show_type, hide),
{
    let ghost start = out@;
    let ghost ind = indent_times(unit@, d as nat);
    write_indent_times(out, unit, d);
    append_str(out, "- message: ");
    append_str(out, n.message.as_str());
    end_line(out);
    let ghost a = out@;
    assert(a =~= start + line(ind, "- message: "@ + n.message@));
    if show_type {
        write_indent_times(out, unit, d);
        append_str(out, "- type: ");
        let t = n.type_name_for_display(hide);
        match t {
            Some(t) => append_str(out, t.as_str()),
            None => append_str(out, "null"),
        }
        end_line(out);
        proof {
            assert(out@ =~= a + line(ind, "- type: "@ + match display_type_name(opt_view(n.type_label), hide) { Some(t) => t, None => "null"@ }));
        }
    }
    proof {
        assert(out@ =~= start + src_node_head(*n, ind, show_type, hide));
    }
}

fn write_src_node(out: &mut String, c: &SourceErrorChain, id: usize, d: usize, max: usize, unit: &str, show_type: bool, hide: bool)
    requires
        id < c.nodes@.len(),
        1 <= d <= max,
    ensures
        final(out)@ == old(out)@ + src_node_lines(*c, id, d as int, max as int, unit@, show_type, hide),
    decreases max - d, 0int, 0int,
{
    let ghost start = out@;
    let n = &c.nodes[id];
    write_src_head(out, n, d, unit, show_type, hide);
    let ghost b = out@;
    if n.source_roots.len() > 0 && d < max {
        write_indent_times(out, unit, d + 1);
        append_str(out, "- source:");
        end_line(out);
        let ghost m = out@;
        assert(m =~= b + line(indent_times(unit@, (d + 1) as nat), "- source:"@));
        write_src_lines(out, c, &n.source_roots, d + 1, max, unit, show_type, hide);
    }
    proof {
        assert(out@ =~= start + src_node_lines(*c, id, d as int, max as int, unit@, show_type, hide));
    }
}

fn write_src_lines(out: &mut String, c: &SourceErrorChain, ids: &Vec<usize>, d: usize, max: usize, unit: &str, show_type: bool, hide: bool)
    requires
        1 <= d <= max,
    ensures
        final(out)@ == old(out)@ + src_lines(*c, ids@, d as int, max as int, unit@, show_type, hide),
    decreases max - d, 1int, 0int,
{
    let ghost start = out@;
    let mut i: usize = 0;
    proof {
        assert(ids@.take(0) =~= Seq::<usize>::empty());
        assert(start + src_lines(*c, ids@.take(0), d as int, max as int, unit@, show_type, hide) =~= start);
    }
    while i < ids.len()
        invariant
            1 <= d <= max,
            i <= ids@.len(),
            out@ == start + src_lines(*c, ids@.take(i as int), d as int, max as int, unit@, show_type, hide),
        decreases ids@.len() - i,
    {
        let id = ids[i];
        let ghost prev = out@;
        proof {
            assert(ids@.take(i as int + 1).drop_last() =~= ids@.take(i as int));
        }
        if id < c.nodes.len() {
            write_src_node(out, c, id, d, max, unit, show_type, hide);
            proof {
                assert(out@ =~= start + src_lines(*c, ids@.take(i as int + 1), d as int, max as int, unit@, show_type, hide));
            }
        }
        i = i + 1;
    }
    proof {
        assert(ids@.take(ids@.len() as int) =~= ids@);
    }
}

fn write_chain_body(out: &mut String, c: &SourceErrorChain, o: ReportRenderOptions, unit: &str, hide: bool)
    ensures
        final(out)@ == old(out)@ + chain_body(*c, o, unit@, hide),
{
    let ghost start = out@;
    if c.roots.len() == 0 {
        if o.show_empty_sections {
            write_note_line(out, unit, "- (none)");
        } else {
            proof { assert(out@ =~= start + Seq::<char>::empty()); }
        }
    } else if 1 <= o.max_source_depth {
        write_src_lines(out, c, &c.roots, 1, o.max_source_depth, unit, o.show_type_name, hide);
    } else {
        proof { assert(out@ =~= start + Seq::<char>::empty()); }
    }
}

fn write_flag_notes(out: &mut String, truncated: bool, cycle: bool, unit: &str)
    ensures
        final(out)@ == old(out)@ + flag_notes(truncated, cycle, unit@),
{
    let ghost start = out@;
    if truncated {
        write_note_line(out, unit, "- ... truncated by max_source_depth");
    }
    let ghost b = out@;
    if cycle {
        write_note_line(out, unit, "- ... cycle detected and repeated branch skipped");
    }
    proof {
        assert(out@ =~= start + flag_notes(truncated, cycle, unit@));
    }
}

fn write_source_section(out: &mut String, chain: &Option<SourceErrorChain>, o: ReportRenderOptions, unit: &str, heading: &str, hide: bool)
    ensures
        final(out)@ == old(out)@ + source_section(*chain, o, unit@, heading@, hide),
{
    let ghost start = out@;
    if !o.show_cause_chains_section {
        proof { assert(out@ =~= start); }
        return;
    }
    match chain {
        None => {
            if o.show_empty_sections {
                append_str(out, heading);
                end_line(out);
                write_note_line(out, unit, "- (none)");
            }
            proof { assert(out@ =~= start + source_section(*chain, o, unit@, heading@, hide)); }
        },
        Some(c) => {
            let flags = c.view_flags(o.traversal_options());
            if o.show_empty_sections || c.roots.len() > 0 || flags.truncated || flags.cycle_detected {
                append_str(out, heading);
                end_line(out);
            }
            let ghost a = out@;
            proof {
                assert(a =~= start + (if o.show_empty_sections || c.roots@.len() > 0 || flags.truncated || flags.cycle_detected { title(heading@) } else { Seq::empty() }));
            }
            write_chain_body(out, c, o, unit, hide);
            write_flag_notes(out, flags.truncated, flags.cycle_detected, unit);
            proof { assert(out@ =~= start + source_section(*chain, o, unit@, heading@, hide)); }
        },
    }
}

/// The pretty rendering of a report: the error section, then governance,
/// trace, stack trace, context, attachments, display causes, origin source
/// errors and diagnostic source errors, as the options show them.
pub open spec fn pretty_text<E>(r: Report<E>, o: ReportRenderOptions) -> Seq<char> {
    let ind = indent_unit(o.pretty_indent);
    error_section(r.message@, r.type_label@, ind, o.show_type_name)
    + governance_section(r.metadata, o, ind)
    + trace_section(r.trace, o, ind)
    + stack_section(r.stack_trace, o, ind)
    + context_section(r.context.entries(), o, ind)
    + attachments_section(r.attachments@, o, ind)
    + display_causes_section(r.display_causes, o, ind)
    + source_section(r.origin_source_errors, o, ind, "Origin Source Errors:"@, true)
    + source_section(r.diagnostic_source_errors, o, ind, "Diagnostic Source Errors:"@, false)
}

impl Pretty {
    /// Renders `report` with this renderer's options.
    pub fn render_text<E>(&self, report: &Report<E>) -> (r: String)
        ensures
            r@ == pretty_text(*report, self.options),
    {
        let o = self.options;
        let ind = indent_string(o.pretty_indent);
        let mut out = String::new();
        write_error_section(&mut out, report.message.as_str(), report.type_label.as_str(), ind.as_str(), o.show_type_name);
        write_governance_section(&mut out, &report.metadata, o, ind.as_str());
        write_trace_section(&mut out, &report.trace, o, ind.as_str());
        write_stack_section(&mut out, &report.stack_trace, o, ind.as_str());
        write_context_section(&mut out, report.context.sorted_entries(), o, ind.as_str());
        write_attachments_section(&mut out, &report.attachments, o, ind.as_str());
        write_display_causes_section(&mut out, &report.display_causes, o, ind.as_str());
        write_source_section(&mut out, &report.origin_source_errors, o, ind.as_str(), "Origin Source Errors:", true);
        write_source_section(&mut out, &report.diagnostic_source_errors, o, ind.as_str(), "Diagnostic Source Errors:", false);
        proof {
            assert(out@ =~= pretty_text(*report, o));
        }
        out
    }
}

impl<E> ReportRenderer<E> for Pretty {
    fn render(&self, report: &Report<E>) -> (r: Option<String>)
        ensures
            opt_view(r) == Some(pretty_text(*report, self.options)),
    {
        Some(self.render_text(report))
    }
}

} // verus!
