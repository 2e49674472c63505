//! Properties of the renderings and exports, stated over all reports: what
//! a reader of the output can rely on finding there.

use vstd::prelude::*;
use crate::attachment::{value_text, ContextValue};
use crate::json::JsonModel;
use crate::otel::{report_attrs, OtelModel};
use crate::pretty::pretty_text;
use crate::render::ReportRenderOptions;
use crate::render_json::report_json_fields;
use crate::report::{compact_text, Report};
use crate::severity::{severity_label, Severity};
use crate::text::dec_nat;
use crate::trace_emit::{level_of_severity, prepared_level_label};

verus! {

/// Whether `part` occurs in `s` as a run of consecutive characters.
pub open spec fn has_part(s: Seq<char>, part: Seq<char>) -> bool {
    exists|i: int| 0 <= i && i + part.len() <= s.len() && #[trigger] s.subrange(i, i + part.len()) == part
}

proof fn lemma_has_part_self(p: Seq<char>)
    ensures
        has_part(p, p),
{
    let z: int = 0;
    assert(p.subrange(z, z + p.len()) =~= p);
}

proof fn lemma_has_part_left(a: Seq<char>, b: Seq<char>, p: Seq<char>)
    requires
        has_part(a, p),
    ensures
        has_part(a + b, p),
{
    let i = choose|i: int| 0 <= i && i + p.len() <= a.len() && #[trigger] a.subrange(i, i + p.len()) == p;
    assert((a + b).subrange(i, i + p.len()) =~= a.subrange(i, i + p.len()));
}

proof fn lemma_has_part_right(a: Seq<char>, b: Seq<char>, p: Seq<char>)
    requires
        has_part(b, p),
    ensures
        has_part(a + b, p),
{
    let i = choose|i: int| 0 <= i && i + p.len() <= b.len() && #[trigger] b.subrange(i, i + p.len()) == p;
    assert((a + b).subrange(a.len() + i, a.len() + i + p.len()) =~= b.subrange(i, i + p.len()));
}

/// Every field of a comma-separated list occurs in the list's text.
proof fn lemma_join_has_parts(parts: Seq<Seq<char>>)
    ensures
        forall|j: int| 0 <= j < parts.len() ==> has_part(crate::report::join_fields(parts), #[trigger] parts[j]),
    decreases parts.len(),
{
    if parts.len() == 1 {
        lemma_has_part_self(parts[0]);
    } else if parts.len() > 1 {
        let init = parts.drop_last();
        lemma_join_has_parts(init);
        let jt = crate::report::join_fields(init);
        assert(crate::report::join_fields(parts) == jt + ", "@ + parts.last());
        assert forall|j: int| 0 <= j < parts.len() implies has_part(crate::report::join_fields(parts), #[trigger] parts[j]) by {
            if j < parts.len() - 1 {
                assert(init[j] == parts[j]);
                lemma_has_part_left(jt, ", "@, parts[j]);
                lemma_has_part_left(jt + ", "@, parts.last(), parts[j]);
            } else {
                lemma_has_part_self(parts.last());
                lemma_has_part_right(jt + ", "@, parts.last(), parts.last());
            }
        }
    }
}

/// The fields of a list of entries, one per entry, in order.
proof fn lemma_entry_fields_index(prefix: Seq<char>, es: Seq<(String, ContextValue)>)
    ensures
        crate::report::entry_fields(prefix, es).len() == es.len(),
        forall|i: int| 0 <= i < es.len() ==> #[trigger] crate::report::entry_fields(prefix, es)[i]
            == prefix + es[i].0@ + "="@ + value_text(es[i].1@),
    decreases es.len(),
{
    if es.len() > 0 {
        lemma_entry_fields_index(prefix, es.drop_last());
        assert forall|i: int| 0 <= i < es.len() implies #[trigger] crate::report::entry_fields(prefix, es)[i]
            == prefix + es[i].0@ + "="@ + value_text(es[i].1@) by {
            if i < es.len() - 1 {
                assert(es.drop_last()[i] == es[i]);
            }
        }
    }
}

/// Every system-context entry of a report shows in its compact rendering
/// as `system.` followed by its key, `=` and its value's text, so that it
/// reads apart from a context entry with the same key.
pub proof fn lemma_compact_shows_system_entries<E>(r: Report<E>, k: String, v: ContextValue)
    requires
        r.system.service.entries().contains((k, v)) || r.system.deployment.entries().contains((k, v))
            || r.system.runtime.entries().contains((k, v)) || r.system.request.entries().contains((k, v)),
    ensures
        has_part(compact_text(r), "system."@ + k@ + "="@ + value_text(v@)),
{
    let s = r.system.service.entries();
    let d = r.system.deployment.entries();
    let rt = r.system.runtime.entries();
    let rq = r.system.request.entries();
    let sys = crate::report::system_entries(r.system);
    assert(sys == s + d + rt + rq);
    let idx: int = if s.contains((k, v)) {
        choose|j: int| 0 <= j < s.len() && s[j] == (k, v)
    } else if d.contains((k, v)) {
        s.len() + choose|j: int| 0 <= j < d.len() && d[j] == (k, v)
    } else if rt.contains((k, v)) {
        s.len() + d.len() + choose|j: int| 0 <= j < rt.len() && rt[j] == (k, v)
    } else {
        s.len() + d.len() + rt.len() + choose|j: int| 0 <= j < rq.len() && rq[j] == (k, v)
    };
    assert(0 <= idx < sys.len() && sys[idx] == (k, v));
    let field = "system."@ + k@ + "="@ + value_text(v@);
    lemma_entry_fields_index("system."@, sys);
    let sf = crate::report::entry_fields("system."@, sys);
    assert(sf[idx] == field);
    let fields = crate::report::compact_fields(r);
    let before = crate::report::metadata_fields(r.metadata)
        + crate::report::trace_fields(r.trace)
        + (if r.stack_trace is Some { seq!["stack_trace=present"@] } else { Seq::empty() })
        + crate::report::entry_fields(Seq::empty(), r.context.entries());
    assert(fields == before + sf + crate::report::attachment_fields(r.attachments@));
    assert(fields[before.len() + idx] == field);
    lemma_join_has_parts(fields);
    let joined = crate::report::join_fields(fields);
    assert(has_part(joined, field));
    assert(crate::report::has_diagnostics(r));
    assert(compact_text(r) == r.message@ + " ["@ + joined + "]"@);
    lemma_has_part_right(r.message@ + " ["@, joined, field);
    lemma_has_part_left(r.message@ + " ["@ + joined, "]"@, field);
}

/// The value under `key` in a JSON object's fields: the first such field.
pub open spec fn json_get(fields: Seq<(Seq<char>, JsonModel)>, key: Seq<char>) -> Option<JsonModel>
    decreases fields.len(),
{
    if fields.len() == 0 {
        None
    } else if fields[0].0 == key {
        Some(fields[0].1)
    } else {
        json_get(fields.drop_first(), key)
    }
}

/// The fields of a JSON object; none for any other value.
pub open spec fn obj_fields(j: JsonModel) -> Seq<(Seq<char>, JsonModel)> {
    match j {
        JsonModel::Object(f) => f,
        _ => Seq::empty(),
    }
}

/// The items of a JSON array; none for any other value.
pub open spec fn arr_items(j: JsonModel) -> Seq<JsonModel> {
    match j {
        JsonModel::Array(a) => a,
        _ => Seq::empty(),
    }
}

/// A JSON number for a set value, `null` for an unset one.
pub open spec fn number_or_null(n: Option<u32>) -> JsonModel {
    match n {
        Some(v) => JsonModel::Number(dec_nat(v as nat)),
        None => JsonModel::Null,
    }
}

/// A JSON string for a set text, `null` for an unset one.
pub open spec fn text_or_null(t: Option<String>) -> JsonModel {
    match t {
        Some(v) => JsonModel::Str(v@),
        None => JsonModel::Null,
    }
}

proof fn lemma_json_get_concat(a: Seq<(Seq<char>, JsonModel)>, b: Seq<(Seq<char>, JsonModel)>, key: Seq<char>)
    ensures
        json_get(a + b, key) == (if json_get(a, key) is Some { json_get(a, key) } else { json_get(b, key) }),
    decreases a.len(),
{
    if a.len() > 0 {
        assert((a + b)[0] == a[0]);
        assert((a + b).drop_first() =~= a.drop_first() + b);
        lemma_json_get_concat(a.drop_first(), b, key);
    } else {
        assert(a + b =~= b);
    }
}

/// In a report's JSON document, every frame of its stack trace is an object
/// whose `line` holds the frame's line number and whose `column` holds its
/// column number (`null` where unknown), frame for frame in order.
pub proof fn lemma_json_frame_positions<E>(r: Report<E>, o: ReportRenderOptions, i: int)
    requires
        o.show_stack_trace_section,
        r.stack_trace is Some,
        0 <= i < r.stack_trace->0.frames@.len(),
    ensures
        ({
            let bag = json_get(report_json_fields(r, o), "diagnostic_bag"@);
            let st = json_get(obj_fields(bag->0), "stack_trace"@);
            let frames = json_get(obj_fields(st->0), "frames"@);
            let frame = obj_fields(arr_items(frames->0)[i]);
            &&& bag is Some
            &&& st is Some
            &&& frames is Some
            &&& arr_items(frames->0).len() == r.stack_trace->0.frames@.len()
            &&& json_get(frame, "symbol"@) == Some(text_or_null(r.stack_trace->0.frames@[i].symbol))
            &&& json_get(frame, "module_path"@) == Some(text_or_null(r.stack_trace->0.frames@[i].module))
            &&& json_get(frame, "file"@) == Some(text_or_null(r.stack_trace->0.frames@[i].file))
            &&& json_get(frame, "line"@) == Some(number_or_null(r.stack_trace->0.frames@[i].line))
            &&& json_get(frame, "column"@) == Some(number_or_null(r.stack_trace->0.frames@[i].column))
        }),
{
    reveal_strlit("schema_version");
    reveal_strlit("error");
    reveal_strlit("metadata");
    reveal_strlit("diagnostic_bag");
    reveal_strlit("stack_trace");
    reveal_strlit("format");
    reveal_strlit("frames");
    reveal_strlit("symbol");
    reveal_strlit("module_path");
    reveal_strlit("file");
    reveal_strlit("line");
    reveal_strlit("column");
    let fields = report_json_fields(r, o);
    let head = seq![("schema_version"@, JsonModel::Str("v0.1.0"@)), ("error"@, crate::render_json::error_json(r.message@, r.type_label@))];
    let meta: Seq<(Seq<char>, JsonModel)> = if o.show_governance_section && (o.show_empty_sections || crate::report::has_metadata(r.metadata)) {
        seq![("metadata"@, crate::render_json::metadata_json(r.metadata))] } else { Seq::empty() };
    let bagf = crate::render_json::diag_bag_fields(r, o);
    let diag: Seq<(Seq<char>, JsonModel)> = seq![("diagnostic_bag"@, JsonModel::Object(bagf))];
    let rest = fields.subrange((head.len() + meta.len() + 1) as int, fields.len() as int);
    assert(fields =~= head + meta + diag + rest);
    lemma_json_get_concat(head + meta + diag, rest, "diagnostic_bag"@);
    lemma_json_get_concat(head + meta, diag, "diagnostic_bag"@);
    lemma_json_get_concat(head, meta, "diagnostic_bag"@);
    assert(json_get(head, "diagnostic_bag"@) is None) by {
        assert("schema_version"@[0] != "diagnostic_bag"@[0]);
        assert("error"@.len() != "diagnostic_bag"@.len());
        let h1 = head.drop_first();
        assert(h1[0].0 == "error"@);
        assert(h1.drop_first() =~= Seq::<(Seq<char>, JsonModel)>::empty());
        assert(json_get(h1.drop_first(), "diagnostic_bag"@) is None);
        assert(json_get(h1, "diagnostic_bag"@) is None);
    }
    assert(json_get(meta, "diagnostic_bag"@) is None) by {
        if meta.len() > 0 {
            assert("metadata"@.len() != "diagnostic_bag"@.len());
            assert(meta.drop_first() =~= Seq::<(Seq<char>, JsonModel)>::empty());
            assert(json_get(meta.drop_first(), "diagnostic_bag"@) is None);
        }
    }
    assert(json_get(fields, "diagnostic_bag"@) == Some(JsonModel::Object(bagf)));
    let stj = crate::render_json::stack_trace_json(r.stack_trace->0);
    let sf: Seq<(Seq<char>, JsonModel)> = seq![("stack_trace"@, stj)];
    let brest = bagf.subrange(1, bagf.len() as int);
    assert(bagf =~= sf + brest);
    lemma_json_get_concat(sf, brest, "stack_trace"@);
    assert(json_get(bagf, "stack_trace"@) == Some(stj));
    let st = r.stack_trace->0;
    let sfs = obj_fields(stj);
    let fv = sfs[1].1;
    let items = arr_items(fv);
    assert(json_get(sfs, "frames"@) == Some(fv)) by {
        assert(sfs[0].0 == "format"@);
        assert("format"@[1] != "frames"@[1]);
        assert(sfs.drop_first()[0] == ("frames"@, fv));
        assert(json_get(sfs.drop_first(), "frames"@) == Some(fv));
    }
    assert(items.len() == st.frames@.len());
    let f = st.frames@[i];
    assert(items[i] == crate::render_json::frame_json(f));
    let ff = obj_fields(items[i]);
    let f1 = ff.drop_first();
    let f2 = f1.drop_first();
    let f3 = f2.drop_first();
    let f4 = f3.drop_first();
    assert(ff[0].0 == "symbol"@ && f1[0].0 == "module_path"@ && f2[0].0 == "file"@);
    assert(f3[0] == ("line"@, crate::render_json::opt_u32_json(f.line)));
    assert(f4[0] == ("column"@, crate::render_json::opt_u32_json(f.column)));
    assert("symbol"@.len() != "line"@.len() && "module_path"@.len() != "line"@.len() && "file"@[0] != "line"@[0]);
    assert("symbol"@.len() != "column"@.len() || "symbol"@[0] != "column"@[0]);
    assert("module_path"@.len() != "column"@.len() && "file"@.len() != "column"@.len() && "line"@.len() != "column"@.len());
    assert(json_get(f3, "line"@) == Some(number_or_null(f.line)));
    assert(json_get(f2, "line"@) == Some(number_or_null(f.line)));
    assert(json_get(f1, "line"@) == Some(number_or_null(f.line)));
    assert(json_get(ff, "line"@) == Some(number_or_null(f.line)));
    assert(json_get(f4, "column"@) == Some(number_or_null(f.column)));
    assert(json_get(f3, "column"@) == Some(number_or_null(f.column)));
    assert(json_get(f2, "column"@) == Some(number_or_null(f.column)));
    assert(json_get(f1, "column"@) == Some(number_or_null(f.column)));
    assert(json_get(ff, "column"@) == Some(number_or_null(f.column)));
    assert(json_get(ff, "symbol"@) == Some(text_or_null(f.symbol)));
    assert("symbol"@.len() != "module_path"@.len());
    assert(json_get(f1, "module_path"@) == Some(text_or_null(f.module)));
    assert(json_get(ff, "module_path"@) == Some(text_or_null(f.module)));
    assert("symbol"@.len() != "file"@.len() && "module_path"@.len() != "file"@.len());
    assert(json_get(f2, "file"@) == Some(text_or_null(f.file)));
    assert(json_get(f1, "file"@) == Some(text_or_null(f.file)));
    assert(json_get(ff, "file"@) == Some(text_or_null(f.file)));
}

/// The line stating the sampled flag `b`, without its indentation.
pub open spec fn sampled_line(b: bool) -> Seq<char> {
    "- sampled: "@ + (if b { "true"@ } else { "false"@ }) + seq!['\n']
}

proof fn lemma_context_lines_sampled(c: crate::trace::TraceContext, ind: Seq<char>, b: bool)
    requires
        c.sampled == Some(b),
    ensures
        has_part(crate::pretty::context_lines(c, ind), sampled_line(b)),
{
    let text = sampled_line(b);
    let a = crate::pretty::opt_id_line(c.trace_id, "- trace_id: "@, ind)
        + crate::pretty::opt_id_line(c.span_id, "- span_id: "@, ind)
        + crate::pretty::opt_id_line(c.parent_span_id, "- parent_span_id: "@, ind);
    let sl = crate::pretty::line(ind, "- sampled: "@ + crate::report::bool_text(b));
    let z1 = match c.trace_state { Some(t) => crate::pretty::line(ind, "- trace_state: "@ + t.value@), None => Seq::empty() };
    let z2 = match c.flags { Some(f) => crate::pretty::line(ind, "- flags: "@ + dec_nat(f.bits as nat)), None => Seq::empty() };
    assert(crate::pretty::context_lines(c, ind) == a + sl + z1 + z2);
    assert(sl =~= ind + text);
    lemma_has_part_self(text);
    lemma_has_part_right(ind, text, text);
    lemma_has_part_right(a, sl, text);
    lemma_has_part_left(a + sl, z1, text);
    lemma_has_part_left(a + sl + z1, z2, text);
}

proof fn lemma_trace_section_sampled(t: crate::trace::ReportTrace, o: ReportRenderOptions, ind: Seq<char>, b: bool)
    requires
        o.show_trace_section,
        t.context matches Some(c) && c.sampled == Some(b),
    ensures
        has_part(crate::pretty::trace_section(t, o, ind), sampled_line(b)),
{
    let c = t.context->0;
    let text = sampled_line(b);
    assert(!crate::trace::trace_is_empty(t));
    assert(crate::trace::trace_context_or_empty(t) == c);
    lemma_context_lines_sampled(c, ind, b);
    let cl = crate::pretty::context_lines(c, ind);
    let el = crate::pretty::event_lines(t.events@, ind);
    assert(crate::pretty::trace_lines(c, t.events@, ind) == cl + el);
    lemma_has_part_left(cl, el, text);
    assert(crate::pretty::trace_section(t, o, ind) == crate::pretty::title("Trace:"@) + (cl + el));
    lemma_has_part_right(crate::pretty::title("Trace:"@), cl + el, text);
}

/// When the pretty rendering shows the trace section and the trace context
/// carries a sampled flag, the rendering holds the line `- sampled: true` or
/// `- sampled: false` stating that flag as it is.
pub proof fn lemma_pretty_shows_sampled<E>(r: Report<E>, o: ReportRenderOptions, b: bool)
    requires
        o.show_trace_section,
        r.trace.context matches Some(c) && c.sampled == Some(b),
    ensures
        has_part(pretty_text(r, o), sampled_line(b)),
{
    let ind = crate::pretty::indent_unit(o.pretty_indent);
    let text = sampled_line(b);
    let e = crate::pretty::error_section(r.message@, r.type_label@, ind, o.show_type_name);
    let g = crate::pretty::governance_section(r.metadata, o, ind);
    let t = crate::pretty::trace_section(r.trace, o, ind);
    let s1 = crate::pretty::stack_section(r.stack_trace, o, ind);
    let s2 = crate::pretty::context_section(r.context.entries(), o, ind);
    let s3 = crate::pretty::attachments_section(r.attachments@, o, ind);
    let s4 = crate::pretty::display_causes_section(r.display_causes, o, ind);
    let s5 = crate::pretty::source_section(r.origin_source_errors, o, ind, "Origin Source Errors:"@, true);
    let s6 = crate::pretty::source_section(r.diagnostic_source_errors, o, ind, "Diagnostic Source Errors:"@, false);
    assert(pretty_text(r, o) == e + g + t + s1 + s2 + s3 + s4 + s5 + s6);
    lemma_trace_section_sampled(r.trace, o, ind, b);
    lemma_has_part_right(e + g, t, text);
    lemma_has_part_left(e + g + t, s1, text);
    lemma_has_part_left(e + g + t + s1, s2, text);
    lemma_has_part_left(e + g + t + s1 + s2, s3, text);
    lemma_has_part_left(e + g + t + s1 + s2 + s3, s4, text);
    lemma_has_part_left(e + g + t + s1 + s2 + s3 + s4, s5, text);
    lemma_has_part_left(e + g + t + s1 + s2 + s3 + s4 + s5, s6, text);
}

/// When the pretty rendering shows the trace section, the trace context's
/// flags show as `- flags: ` and their number, and its trace state as
/// `- trace_state: ` and its text.
pub proof fn lemma_pretty_shows_flags_and_state<E>(r: Report<E>, o: ReportRenderOptions)
    requires
        o.show_trace_section,
        r.trace.context is Some,
    ensures
        r.trace.context->0.flags matches Some(f) ==> has_part(pretty_text(r, o), "- flags: "@ + dec_nat(f.bits as nat) + seq!['\n']),
        r.trace.context->0.trace_state matches Some(t) ==> has_part(pretty_text(r, o), "- trace_state: "@ + t.value@ + seq!['\n']),
{
    let c = r.trace.context->0;
    if let Some(f) = c.flags {
        lemma_pretty_has_context_part(r, o, "- flags: "@ + dec_nat(f.bits as nat) + seq!['\n']);
    }
    if let Some(t) = c.trace_state {
        lemma_pretty_has_context_part(r, o, "- trace_state: "@ + t.value@ + seq!['\n']);
    }
}

proof fn lemma_pretty_has_context_part<E>(r: Report<E>, o: ReportRenderOptions, text: Seq<char>)
    requires
        o.show_trace_section,
        r.trace.context is Some,
        ({
            let c = r.trace.context->0;
            ||| (c.flags matches Some(f) && text == "- flags: "@ + dec_nat(f.bits as nat) + seq!['\n'])
            ||| (c.trace_state matches Some(t) && text == "- trace_state: "@ + t.value@ + seq!['\n'])
        }),
    ensures
        has_part(pretty_text(r, o), text),
{
    let ind = crate::pretty::indent_unit(o.pretty_indent);
    let c = r.trace.context->0;
    let a = crate::pretty::opt_id_line(c.trace_id, "- trace_id: "@, ind)
        + crate::pretty::opt_id_line(c.span_id, "- span_id: "@, ind)
        + crate::pretty::opt_id_line(c.parent_span_id, "- parent_span_id: "@, ind)
        + (match c.sampled { Some(b) => crate::pretty::line(ind, "- sampled: "@ + crate::report::bool_text(b)), None => Seq::empty() });
    let z1 = match c.trace_state { Some(t) => crate::pretty::line(ind, "- trace_state: "@ + t.value@), None => Seq::empty() };
    let z2 = match c.flags { Some(f) => crate::pretty::line(ind, "- flags: "@ + dec_nat(f.bits as nat)), None => Seq::empty() };
    let cl = crate::pretty::context_lines(c, ind);
    assert(cl == a + z1 + z2);
    lemma_has_part_self(text);
    if c.flags matches Some(f) && text == "- flags: "@ + dec_nat(f.bits as nat) + seq!['\n'] {
        assert(z2 =~= ind + text);
        lemma_has_part_right(ind, text, text);
        lemma_has_part_right(a + z1, z2, text);
    } else {
        assert(z1 =~= ind + text);
        lemma_has_part_right(ind, text, text);
        lemma_has_part_right(a, z1, text);
        lemma_has_part_left(a + z1, z2, text);
    }
    assert(!crate::trace::trace_is_empty(r.trace)) by {
        assert(c.flags is Some || c.trace_state is Some);
    }
    assert(crate::trace::trace_context_or_empty(r.trace) == c);
    let el = crate::pretty::event_lines(r.trace.events@, ind);
    lemma_has_part_left(cl, el, text);
    let t = crate::pretty::trace_section(r.trace, o, ind);
    assert(t == crate::pretty::title("Trace:"@) + (cl + el));
    lemma_has_part_right(crate::pretty::title("Trace:"@), cl + el, text);
    let e = crate::pretty::error_section(r.message@, r.type_label@, ind, o.show_type_name);
    let g = crate::pretty::governance_section(r.metadata, o, ind);
    let s1 = crate::pretty::stack_section(r.stack_trace, o, ind);
    let s2 = crate::pretty::context_section(r.context.entries(), o, ind);
    let s3 = crate::pretty::attachments_section(r.attachments@, o, ind);
    let s4 = crate::pretty::display_causes_section(r.display_causes, o, ind);
    let s5 = crate::pretty::source_section(r.origin_source_errors, o, ind, "Origin Source Errors:"@, true);
    let s6 = crate::pretty::source_section(r.diagnostic_source_errors, o, ind, "Diagnostic Source Errors:"@, false);
    assert(pretty_text(r, o) == e + g + t + s1 + s2 + s3 + s4 + s5 + s6);
    lemma_has_part_right(e + g, t, text);
    lemma_has_part_left(e + g + t, s1, text);
    lemma_has_part_left(e + g + t + s1, s2, text);
    lemma_has_part_left(e + g + t + s1 + s2, s3, text);
    lemma_has_part_left(e + g + t + s1 + s2 + s3, s4, text);
    lemma_has_part_left(e + g + t + s1 + s2 + s3 + s4, s5, text);
    lemma_has_part_left(e + g + t + s1 + s2 + s3 + s4 + s5, s6, text);
}

proof fn lemma_compact_has_field<E>(r: Report<E>, f: Seq<char>)
    requires
        crate::report::compact_fields(r).contains(f),
        crate::report::has_diagnostics(r) || crate::report::has_metadata(r.metadata),
    ensures
        has_part(compact_text(r), f),
{
    let fields = crate::report::compact_fields(r);
    lemma_join_has_parts(fields);
    let joined = crate::report::join_fields(fields);
    let j = choose|j: int| 0 <= j < fields.len() && fields[j] == f;
    assert(has_part(joined, fields[j]));
    assert(compact_text(r) == r.message@ + " ["@ + joined + "]"@);
    lemma_has_part_right(r.message@ + " ["@, joined, f);
    lemma_has_part_left(r.message@ + " ["@ + joined, "]"@, f);
}

/// The compact rendering states the report's governance fields as they are
/// set: `severity=` with the severity's label, `category=` with the
/// category, and `retryable=` with `true` or `false` as the flag says.
pub proof fn lemma_compact_shows_metadata<E>(r: Report<E>)
    ensures
        r.metadata.severity matches Some(sv) ==> has_part(compact_text(r), "severity="@ + severity_label(sv)),
        r.metadata.category matches Some(c) ==> has_part(compact_text(r), "category="@ + c@),
        r.metadata.retryable matches Some(b) ==> has_part(compact_text(r), "retryable="@ + (if b { "true"@ } else { "false"@ })),
{
    let m = r.metadata;
    let a: Seq<Seq<char>> = match m.error_code { Some(c) => seq!["code="@ + crate::error_code::error_code_text(c@)], None => Seq::empty() };
    let b: Seq<Seq<char>> = match m.severity { Some(s) => seq!["severity="@ + severity_label(s)], None => Seq::empty() };
    let c: Seq<Seq<char>> = match m.category { Some(c) => seq!["category="@ + c@], None => Seq::empty() };
    let d: Seq<Seq<char>> = match m.retryable { Some(x) => seq!["retryable="@ + crate::report::bool_text(x)], None => Seq::empty() };
    let mf = crate::report::metadata_fields(m);
    assert(mf == a + b + c + d);
    let fields = crate::report::compact_fields(r);
    let rest = fields.subrange(mf.len() as int, fields.len() as int);
    assert(fields =~= mf + rest);
    if let Some(sv) = m.severity {
        assert(fields[a.len() as int] == "severity="@ + severity_label(sv));
        lemma_compact_has_field(r, "severity="@ + severity_label(sv));
    }
    if let Some(cc) = m.category {
        assert(fields[(a.len() + b.len()) as int] == "category="@ + cc@);
        lemma_compact_has_field(r, "category="@ + cc@);
    }
    if let Some(x) = m.retryable {
        let f = "retryable="@ + (if x { "true"@ } else { "false"@ });
        assert(fields[(a.len() + b.len() + c.len()) as int] == f);
        lemma_compact_has_field(r, f);
    }
}

/// Every context entry of a report shows in its compact rendering as its
/// key, `=` and its value's text.
pub proof fn lemma_compact_shows_context_entries<E>(r: Report<E>, k: String, v: ContextValue)
    requires
        r.context.entries().contains((k, v)),
    ensures
        has_part(compact_text(r), k@ + "="@ + value_text(v@)),
{
    let es = r.context.entries();
    let idx = choose|j: int| 0 <= j < es.len() && es[j] == (k, v);
    lemma_entry_fields_index(Seq::empty(), es);
    let ef = crate::report::entry_fields(Seq::empty(), es);
    assert(ef[idx] == Seq::<char>::empty() + k@ + "="@ + value_text(v@));
    assert(Seq::<char>::empty() + k@ + "="@ + value_text(v@) =~= k@ + "="@ + value_text(v@));
    let before = crate::report::metadata_fields(r.metadata)
        + crate::report::trace_fields(r.trace)
        + (if r.stack_trace is Some { seq!["stack_trace=present"@] } else { Seq::empty() });
    let fields = crate::report::compact_fields(r);
    assert(fields == before + ef + crate::report::entry_fields("system."@, crate::report::system_entries(r.system))
        + crate::report::attachment_fields(r.attachments@));
    assert(fields[before.len() + idx] == k@ + "="@ + value_text(v@));
    assert(crate::report::has_diagnostics(r));
    lemma_compact_has_field(r, k@ + "="@ + value_text(v@));
}

/// The report record of an OpenTelemetry export ends with the
/// `error.retryable` attribute holding the report's retry flag, when set.
pub proof fn lemma_otel_retryable_is_flag<E>(r: Report<E>, ns: Option<Seq<char>>, b: bool)
    requires
        r.metadata.retryable == Some(b),
    ensures
        report_attrs(r, ns).len() > 0,
        report_attrs(r, ns).last() == ("error.retryable"@, OtelModel::Bool(b)),
        report_attrs(r, ns).contains(("error.retryable"@, OtelModel::Bool(b))),
{
    let a = report_attrs(r, ns);
    assert(a.len() > 0);
    assert(a[a.len() - 1] == ("error.retryable"@, OtelModel::Bool(b)));
}

/// The report record of an OpenTelemetry export carries the error's type
/// and text as `exception.type` and `exception.message`, and, when set, its
/// category as `error.category`.
pub proof fn lemma_otel_exception_attrs<E>(r: Report<E>, ns: Option<Seq<char>>)
    ensures
        report_attrs(r, ns).contains(("exception.type"@, OtelModel::Str(r.type_label@))),
        report_attrs(r, ns).contains(("exception.message"@, OtelModel::Str(r.message@))),
        r.metadata.category matches Some(c) ==> report_attrs(r, ns).contains(("error.category"@, OtelModel::Str(c@))),
{
    let a = report_attrs(r, ns);
    let x = crate::otel::exception_attrs(r);
    let pre = a.subrange(0, a.len() - x.len());
    assert(a =~= pre + x);
    assert(a[pre.len() as int] == x[0]);
    assert(a[pre.len() as int + 1] == x[1]);
    if let Some(c) = r.metadata.category {
        let fixed = seq![
            ("exception.type"@, OtelModel::Str(r.type_label@)),
            ("exception.message"@, OtelModel::Str(r.message@)),
            ("exception.raw_data"@, OtelModel::KvList(seq![("message"@, OtelModel::Str(r.message@)), ("type"@, OtelModel::Str(r.type_label@))])),
        ];
        let st: Seq<(Seq<char>, OtelModel)> = match r.stack_trace { Some(t) => seq![("exception.stacktrace"@, crate::otel::stack_trace_value(t))], None => Seq::empty() };
        let code: Seq<(Seq<char>, OtelModel)> = match r.metadata.error_code { Some(cd) => seq![("error.code"@, crate::otel::code_value(cd@))], None => Seq::empty() };
        let k = (fixed.len() + st.len() + code.len()) as int;
        assert(x[k] == ("error.category"@, OtelModel::Str(c@)));
        assert(a[pre.len() as int + k] == x[k]);
    }
}

/// A trace event that names its level is emitted at the tracing level of
/// the same name.
pub proof fn lemma_event_level_named_like_event(l: crate::trace::TraceEventLevel)
    ensures
        crate::trace_emit::level_of_event(Some(l)) is Some,
        prepared_level_label(crate::trace_emit::level_of_event(Some(l))->0) == crate::trace::trace_level_label(l),
{
}

/// A report is emitted at the tracing level named like its severity; a
/// fatal report at the error level.
pub proof fn lemma_tracing_level_named_like_severity(s: Severity)
    ensures
        prepared_level_label(level_of_severity(s)) == (if s == Severity::Fatal { "error"@ } else { severity_label(s) }),
{
}

/// A more severe report is never emitted at a lower level: the levels keep
/// the order debug < info < warn < error of the severities.
pub proof fn lemma_tracing_level_keeps_order(a: Severity, b: Severity)
    ensures
        level_rank(level_of_severity(a)) <= level_rank(level_of_severity(b)) <==> (severity_rank(a) <= severity_rank(b)
            || (a == Severity::Fatal && b == Severity::Error) || (a == Severity::Error && b == Severity::Fatal)),
{
}

/// The rank of a tracing level, from least to most severe.
pub open spec fn level_rank(l: crate::trace_emit::PreparedTracingLevel) -> int {
    match l {
        crate::trace_emit::PreparedTracingLevel::Trace => 0,
        crate::trace_emit::PreparedTracingLevel::Debug => 1,
        crate::trace_emit::PreparedTracingLevel::Info => 2,
        crate::trace_emit::PreparedTracingLevel::Warn => 3,
        crate::trace_emit::PreparedTracingLevel::Error => 4,
    }
}

/// The rank of a severity, from least to most severe.
pub open spec fn severity_rank(s: Severity) -> int {
    match s {
        Severity::Debug => 1,
        Severity::Info => 2,
        Severity::Warn => 3,
        Severity::Error => 4,
        Severity::Fatal => 5,
    }
}

} // verus!
