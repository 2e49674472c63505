use diagweave::attachment::AttachmentValue;
use diagweave::config::{BuildProfile, CauseCollectOptions, GlobalConfig};
use diagweave::error_code::ErrorCode;
use diagweave::global::{register_global_injector, GlobalContext, GlobalInjectorSlot, RegisterGlobalContextError};
use diagweave::render::{Pretty, PrettyIndent, ReportRenderOptions};
use diagweave::report::{Report, ReportMetadata, StackTrace, StackTraceFormat};
use diagweave::severity::Severity;
use diagweave::source_chain::{SourceErrorChain, SourceErrorChainEntries, SourceErrorItem};
use diagweave::trace::HexId;

fn auth_report() -> Report<u8> {
    Report::new(1u8, "auth invalid token".to_string(), "report::AuthError".to_string())
}

fn text(s: &str) -> AttachmentValue {
    AttachmentValue::String(s.to_string())
}

/// A chain holding one error, wrapping `inner_chain`'s roots when given.
fn chain_of(message: &str, type_label: &str) -> SourceErrorChain {
    let mut c = SourceErrorChain::new();
    let id = c.push_node(SourceErrorItem::new(message.to_string(), Some(type_label.to_string()), 1));
    c.push_root(id);
    c
}

#[test]
fn metadata_and_attachments_are_recorded_and_formatted() {
    let payload = AttachmentValue::Object(vec![
        ("attempt".to_string(), AttachmentValue::Unsigned(2)),
        ("method".to_string(), text("password")),
    ]);
    let report = auth_report()
        .with_error_code(ErrorCode::from_str_code("AUTH.INVALID_TOKEN"))
        .with_severity(Severity::Warn)
        .with_category("auth".to_string())
        .with_retryable(false)
        .with_ctx("request_id".to_string(), text("tx-100"))
        .attach_note("check authorization flow".to_string())
        .attach_payload("auth_payload".to_string(), payload, Some("application/json".to_string()));

    assert_eq!(report.context.len(), 1);
    assert_eq!(report.attachments.len(), 2);
    let entries = report.context.sorted_entries();
    assert_eq!(entries[0].0, "request_id");
    assert_eq!(entries[0].1, text("tx-100"));
    assert_eq!(report.attachments[0].as_note().map(|s| s.as_str()), Some("check authorization flow"));
    assert!(report.attachments[1].as_payload().is_some());
    assert_eq!(
        report.metadata.error_code.as_ref().map(|c| c.to_code_string()),
        Some("AUTH.INVALID_TOKEN".to_string())
    );
    assert_eq!(
        report.to_compact_string(),
        "auth invalid token [code=AUTH.INVALID_TOKEN, severity=warn, category=auth, retryable=false, request_id=tx-100, check authorization flow, auth_payload={attempt: 2, method: password} (application/json)]"
    );
}

#[test]
fn diagweave_with_changes_context_and_keeps_metadata() {
    let global = GlobalConfig::new(BuildProfile::Release);
    let outer = auth_report()
        .with_error_code(ErrorCode::from_str_code("AUTH.INVALID_TOKEN"))
        .with_ctx("request_id".to_string(), text("tx-9"))
        .set_accumulate_source_chain(false)
        .map_err(|_| 401u16, "api wrapped code=401".to_string(), "report::ApiError".to_string(), 7, &global);

    assert_eq!(outer.to_compact_string(), "api wrapped code=401 [code=AUTH.INVALID_TOKEN, request_id=tx-9]");
    assert_eq!(outer.inner, 401u16);
    assert!(outer.origin_source_errors.is_none());
}

#[test]
fn map_err_records_replaced_error_when_accumulating() {
    let global = GlobalConfig::new(BuildProfile::Release);
    let outer = auth_report()
        .with_source_error_chain(chain_of("io timeout", "std::io::Error"))
        .set_accumulate_source_chain(true)
        .map_err(|code| code as u32 + 400, "api wrapped code=401".to_string(), "report::ApiError".to_string(), 9, &global);
    assert_eq!(outer.inner, 401u32);
    let chain = outer.origin_source_errors.as_ref().expect("chain recorded");
    assert_eq!(chain.roots, vec![1]);
    assert_eq!(chain.nodes.len(), 2);
    assert_eq!(chain.nodes[1].message, "auth invalid token");
    assert_eq!(chain.nodes[1].type_label.as_deref(), Some("report::AuthError"));
    assert_eq!(chain.nodes[1].identity, 9);
    assert_eq!(chain.nodes[1].source_roots, vec![0]);
    assert_eq!(chain.nodes[0].message, "io timeout");
}

#[test]
fn error_value_diag_is_supported() {
    let report = auth_report().with_error_code(ErrorCode::from_str_code("AUTH.INVALID_TOKEN"));
    assert_eq!(report.to_compact_string(), "auth invalid token [code=AUTH.INVALID_TOKEN]");
}

fn injected() -> GlobalContext {
    let mut context = GlobalContext::new();
    context.context.push(("request_id".to_string(), text("req-42")));
    context.trace_id = Some(HexId::<32>::new("4bf92f3577b34da6a3ce929d0e0e4736".to_string()).unwrap());
    context.span_id = Some(HexId::<16>::new("00f067aa0ba902b7".to_string()).unwrap());
    context
}

#[test]
fn global_context_injector_applies_to_new_reports() {
    let report = auth_report().apply_global_context(Some(injected()));
    assert_eq!(report.context.len(), 1);
    let entries = report.context.sorted_entries();
    assert_eq!(entries[0].0, "request_id");
    assert_eq!(entries[0].1, text("req-42"));
    let ctx = report.trace.context.as_ref().expect("trace should be injected");
    assert_eq!(ctx.trace_id.as_ref().map(|v| v.as_str()), Some("4bf92f3577b34da6a3ce929d0e0e4736"));
    assert_eq!(ctx.span_id.as_ref().map(|v| v.as_str()), Some("00f067aa0ba902b7"));
}

#[test]
fn global_context_injector_can_be_disabled_by_user_logic() {
    let report = auth_report().apply_global_context(None);
    assert!(report.context.sorted_entries().iter().all(|(key, _)| key != "request_id"));
    assert!(report.trace.context.is_none());
}

#[test]
fn global_context_keeps_report_trace_ids_and_later_entries_win() {
    let own = HexId::<32>::new("0000000000000000000000000000000a".to_string()).unwrap();
    let own_span = HexId::<16>::new("000000000000000b".to_string()).unwrap();
    let mut g = injected();
    g.context.push(("request_id".to_string(), text("req-43")));
    let report = auth_report().with_trace_ids(own, own_span).apply_global_context(Some(g));
    let entries = report.context.sorted_entries();
    assert_eq!(entries.len(), 1);
    assert_eq!(entries[0].1, text("req-43"));
    let ctx = report.trace.context.as_ref().unwrap();
    assert_eq!(ctx.trace_id.as_ref().map(|v| v.as_str()), Some("0000000000000000000000000000000a"));
    assert_eq!(ctx.span_id.as_ref().map(|v| v.as_str()), Some("000000000000000b"));
}

#[test]
fn global_injector_registers_once() {
    let mut slot = GlobalInjectorSlot::new();
    assert!(!slot.registered());
    assert_eq!(register_global_injector(&mut slot), Ok(()));
    assert!(slot.registered());
    assert_eq!(register_global_injector(&mut slot), Err(RegisterGlobalContextError));
}

fn boundary(inner: &Report<u8>) -> Report<u8> {
    Report::new(2u8, "api unauthorized".to_string(), "report::ApiError".to_string())
        .with_diag_src_err_chain(chain_of(&inner.to_compact_string(), "diagweave::report::Report<report::AuthError>"))
}

#[test]
fn pretty_output_is_structured() {
    let inner = auth_report()
        .with_error_code(ErrorCode::from_str_code("AUTH.INVALID_TOKEN"))
        .with_severity(Severity::Error)
        .with_ctx("request_id".to_string(), text("tx-pretty"))
        .attach_payload(
            "raw_body".to_string(),
            AttachmentValue::Bytes(vec![1, 2, 3]),
            Some("application/octet-stream".to_string()),
        );
    let outer = boundary(&inner)
        .with_error_code(ErrorCode::from_str_code("API.UNAUTHORIZED"))
        .with_ctx("request_id".to_string(), text("tx-pretty"))
        .attach_note("see source".to_string());
    let pretty = Pretty::new(ReportRenderOptions::default_options()).render_text(&outer);

    assert!(pretty.contains("Error:"));
    assert!(pretty.contains("  - message: api unauthorized"));
    assert!(pretty.contains("Governance:"));
    assert!(pretty.contains("Context:"));
    assert!(pretty.contains("Attachments:"));
    assert!(pretty.contains("Source Errors:"));
    assert!(pretty.contains("auth invalid token [code=AUTH.INVALID_TOKEN, severity=error, request_id=tx-pretty, raw_body=<3 bytes> (application/octet-stream)]"));
}

fn nested_chain() -> SourceErrorChain {
    let mut c = SourceErrorChain::new();
    let a = c.push_node(SourceErrorItem::new("api unauthorized".to_string(), Some("report::ApiError".to_string()), 1));
    let b = c.push_node(SourceErrorItem::new("api wrapped code=500".to_string(), Some("report::ApiError".to_string()), 2));
    c.nodes[b].source_roots.push(a);
    c.push_root(b);
    c
}

#[test]
fn pretty_indents_nested_source_errors() {
    let report = Report::new(3u8, "api wrapped code=501".to_string(), "report::ApiError".to_string())
        .with_diag_src_err_chain(nested_chain());
    let pretty = Pretty::new(ReportRenderOptions::default_options()).render_text(&report);
    assert!(pretty.contains("  - source:\n    - message:"));
}

#[test]
fn pretty_respects_max_source_depth() {
    let report = Report::new(3u8, "api wrapped code=500".to_string(), "report::ApiError".to_string())
        .with_diag_src_err_chain(nested_chain());
    let options = ReportRenderOptions { max_source_depth: 1, detect_source_cycle: true, ..ReportRenderOptions::default_options() };
    let pretty = Pretty::new(options).render_text(&report);
    assert!(pretty.contains("truncated by max_source_depth"));
}

#[test]
fn pretty_stops_on_cycle() {
    // The capture of an error whose source is itself: one node, and the
    // cycle flag it raised when it met the error again.
    let mut c = SourceErrorChain::new();
    let a = c.push_node(SourceErrorItem::new("loop error".to_string(), Some("report::LoopError".to_string()), 5));
    c.push_root(a);
    c.cycle_detected = true;
    let report = Report::new(0u8, "loop error".to_string(), "report::LoopError".to_string()).with_diag_src_err_chain(c);
    let pretty = Pretty::new(ReportRenderOptions::default_options()).render_text(&report);
    assert!(pretty.contains("cycle detected and repeated branch skipped"));
    let quiet = ReportRenderOptions { detect_source_cycle: false, ..ReportRenderOptions::default_options() };
    let pretty = Pretty::new(quiet).render_text(&report);
    assert!(!pretty.contains("cycle detected"));
}

#[test]
fn pretty_can_hide_type_and_empty_sections_and_change_indent() {
    let options = ReportRenderOptions {
        max_source_depth: 16,
        detect_source_cycle: true,
        pretty_indent: PrettyIndent::Spaces(4),
        show_type_name: false,
        show_empty_sections: false,
        show_governance_section: true,
        show_trace_section: true,
        show_stack_trace_section: true,
        show_context_section: true,
        show_attachments_section: true,
        show_cause_chains_section: true,
        stack_trace_max_lines: 24,
        stack_trace_include_raw: true,
        stack_trace_include_frames: true,
        json_pretty: false,
    };
    let pretty = Pretty::new(options).render_text(&auth_report());
    assert!(pretty.contains("Error:"));
    assert!(pretty.contains("    - message: auth invalid token"));
    assert!(!pretty.contains("  - type:"));
    assert!(!pretty.contains("Governance:"));
    assert!(!pretty.contains("Context:"));
    assert!(!pretty.contains("Attachments:"));
    assert!(!pretty.contains("Display Causes:"));
    assert!(!pretty.contains("Source Errors:"));
}

#[test]
fn pretty_can_hide_type_names_in_source_chains() {
    let report = Report::new(2u8, "api unauthorized".to_string(), "report::ApiError".to_string())
        .with_diag_src_err_chain(chain_of("auth invalid token", "report::AuthError"));
    let options = ReportRenderOptions {
        show_type_name: false,
        show_cause_chains_section: true,
        show_empty_sections: true,
        ..ReportRenderOptions::default_options()
    };
    let pretty = Pretty::new(options).render_text(&report);
    assert!(pretty.contains("Source Errors:"));
    assert!(pretty.contains("auth invalid token"));
    assert!(!pretty.contains("- type:"));
}

#[test]
fn stack_trace_metadata_api_works() {
    let trace = StackTrace::new(StackTraceFormat::Raw).with_raw("frame-a\\nframe-b".to_string());
    let report = Report::new(2u8, "api unauthorized".to_string(), "report::ApiError".to_string())
        .with_stack_trace(trace);
    assert_eq!(report.stack_trace().and_then(|t| t.raw.as_deref()), Some("frame-a\\nframe-b"));
    assert_eq!(report.to_compact_string(), "api unauthorized [stack_trace=present]");
    let cleared = report.clear_stack_trace();
    assert!(cleared.stack_trace().is_none());
}

#[test]
fn report_field_getters_are_exposed() {
    let report = auth_report()
        .with_error_code(ErrorCode::from_str_code("AUTH.INVALID_TOKEN"))
        .with_severity(Severity::Warn)
        .with_category("auth".to_string())
        .with_retryable(false);
    assert_eq!(report.error_code().map(|c| c.to_code_string()), Some("AUTH.INVALID_TOKEN".to_string()));
    assert_eq!(report.severity(), Some(Severity::Warn));
    assert_eq!(report.category(), Some("auth"));
    assert_eq!(report.retryable(), Some(false));
    let replaced = report.replace_severity(Severity::Error);
    assert_eq!(replaced.severity(), Some(Severity::Error));
    assert_eq!(replaced.metadata().category(), Some("auth"));
}

#[test]
fn metadata_setters_replace_and_fill() {
    let m = ReportMetadata::new()
        .with_error_code(ErrorCode::from_i64(7))
        .with_error_code(ErrorCode::from_i64(8))
        .with_category("io".to_string())
        .set_category("net".to_string())
        .with_retryable(true)
        .set_retryable(false);
    assert_eq!(m.error_code().map(|c| c.to_code_string()), Some("7".to_string()));
    assert_eq!(m.category(), Some("net"));
    assert_eq!(m.retryable(), Some(false));
    let mut m = m.set_error_code(ErrorCode::from_i64(9));
    m.with_error_code_mut(ErrorCode::from_i64(10));
    m.with_category_mut("ignored".to_string());
    m.with_retryable_mut(true);
    assert_eq!(m.error_code().map(|c| c.to_code_string()), Some("9".to_string()));
    assert_eq!(m.category(), Some("net"));
    assert_eq!(m.retryable(), Some(false));
    assert_eq!(m.replace_severity(Severity::Info).severity(), Some(Severity::Info));
    let st = StackTrace::new(StackTraceFormat::Native).with_raw("a".to_string()).set_raw("b".to_string()).set_frames(vec![]);
    assert_eq!(st.raw.as_deref(), Some("b"));
    assert!(auth_report().attachments().is_empty());
    assert!(auth_report().context().is_empty());
}

#[test]
fn test_map_err_preserves_severity() {
    let global = GlobalConfig::new(BuildProfile::Release);
    let mapped = auth_report().map_err(|_| 2u16, "outer".to_string(), "report::OuterError".to_string(), 3, &global);
    assert!(mapped.severity().is_none());
}

#[test]
fn test_map_err_with_severity() {
    let global = GlobalConfig::new(BuildProfile::Release);
    let report = auth_report().set_severity(Severity::Error);
    let mapped = report.map_err(|_| 2u16, "outer".to_string(), "report::OuterError".to_string(), 3, &global);
    assert_eq!(mapped.severity(), Some(Severity::Error));
}

fn drain(mut entries: SourceErrorChainEntries) -> Vec<(String, usize)> {
    let mut out = Vec::new();
    while let Some(e) = entries.next() {
        out.push((e.message, e.depth));
    }
    out
}

fn item(message: &str, type_label: &str, identity: usize, sources: Vec<usize>) -> SourceErrorItem {
    SourceErrorItem {
        message: message.to_string(),
        type_label: Some(type_label.to_string()),
        identity,
        source_roots: sources,
    }
}

#[test]
fn source_iteration_keeps_top_level_siblings_at_same_depth() {
    let mut chain = SourceErrorChain::new();
    let a = chain.push_node(item("auth invalid token", "report::AuthError", 1, vec![]));
    let b = chain.push_node(item("network down", "std::io::Error", 2, vec![]));
    chain.push_root(a);
    chain.push_root(b);
    let report = Report::new(0u8, "api unauthorized".to_string(), "report::ApiError".to_string())
        .with_diag_src_err_chain(chain);
    let collected = drain(report.iter_diag_srcs_ext(CauseCollectOptions { max_depth: 4, detect_cycle: true }));
    assert_eq!(
        collected,
        vec![("auth invalid token".to_owned(), 0), ("network down".to_owned(), 0)]
    );
}

#[test]
fn source_iteration_keeps_siblings_after_truncation() {
    let mut chain = SourceErrorChain::new();
    let deep = chain.push_node(item("api unauthorized", "diagweave::report::Report<report::ApiError>", 1, vec![1]));
    chain.push_node(item("auth invalid token", "report::AuthError", 2, vec![]));
    let net = chain.push_node(item("network down", "std::io::Error", 3, vec![]));
    chain.push_root(deep);
    chain.push_root(net);
    let report = Report::new(0u8, "api wrapped code=400".to_string(), "report::ApiError".to_string())
        .with_diag_src_err_chain(chain);
    let mut entries = report.iter_diag_srcs_ext(CauseCollectOptions { max_depth: 1, detect_cycle: true });
    let mut collected = Vec::new();
    while let Some(e) = entries.next() {
        collected.push(e.message);
    }
    assert!(collected.iter().any(|message| message == "network down"));
    assert!(!collected.iter().any(|message| message == "auth invalid token"));
    assert!(entries.state().truncated);
}

#[test]
fn source_errors_iterator_only_uses_attached_chain() {
    let global = GlobalConfig::new(BuildProfile::Debug);
    let report = Report::new(0u8, "natural source".to_string(), "report::NaturalSourceError".to_string())
        .with_diag_src_err_chain(chain_of("auth invalid token", "report::AuthError"));
    let collected: Vec<String> = drain(report.iter_diag_sources(&global)).into_iter().map(|(m, _)| m).collect();
    assert_eq!(collected, vec!["auth invalid token".to_owned()]);
    let empty = Report::new(0u8, "natural source".to_string(), "report::NaturalSourceError".to_string());
    assert!(drain(empty.iter_diag_sources(&global)).is_empty());
}

#[test]
fn diag_source_walk_detects_cycles_only_when_asked() {
    let mut chain = SourceErrorChain::new();
    let a = chain.push_node(item("loop error", "report::LoopError", 5, vec![0]));
    chain.push_root(a);
    let report = Report::new(0u8, "outer".to_string(), "report::Outer".to_string()).with_diag_src_err_chain(chain);

    let mut walk = report.iter_diag_srcs_ext(CauseCollectOptions { max_depth: 4, detect_cycle: false });
    let mut messages = Vec::new();
    while let Some(e) = walk.next() {
        messages.push(e.message);
    }
    assert_eq!(messages, vec!["loop error"; 4]);
    assert!(walk.state().truncated);
    assert!(!walk.state().cycle_detected);

    let mut walk = report.iter_diag_srcs_ext(CauseCollectOptions { max_depth: 4, detect_cycle: true });
    let mut messages = Vec::new();
    while let Some(e) = walk.next() {
        messages.push(e.message);
    }
    assert_eq!(messages, vec!["loop error"]);
    assert!(walk.state().cycle_detected);
}
