use diagweave::cause::{ErrorGraph, ErrorNode};
use diagweave::config::{CauseCollectOptions, ReportOptions};
use diagweave::source_chain::{SourceErrorChain, SourceErrorItem};
use diagweave::source_view::OriginSourceWalk;
use diagweave::derive_model::{
    display_mode_from_parsed, from_impl_pairs, merge_set_attrs, report_constructor_name, DisplayMode, DisplayModeError,
    SetAttr, SetMembers,
};
use diagweave::report::{Report, StackFrame, StackTrace, StackTraceFormat};
use diagweave::severity::Severity;
use diagweave::trace::HexId;
use diagweave::transform::Diagnostic;

fn frame(symbol: &str) -> StackFrame {
    StackFrame { symbol: Some(symbol.to_string()), module: None, file: None, line: None, column: None }
}

fn names(list: &[&str]) -> Vec<String> {
    list.iter().map(|s| s.to_string()).collect()
}

#[test]
fn with_frames_appends_after_existing_frames() {
    let trace = StackTrace::new(StackTraceFormat::Native)
        .with_frames(vec![frame("a")])
        .with_frames(vec![frame("b"), frame("c")]);
    let symbols: Vec<&str> = trace.frames.iter().map(|f| f.symbol.as_deref().unwrap()).collect();
    assert_eq!(symbols, vec!["a", "b", "c"]);
    let replaced = trace.set_frames(vec![frame("z")]);
    assert_eq!(replaced.frames.len(), 1);
}

#[test]
fn hex_ids_accept_only_lowercase_digits() {
    assert!(HexId::<16>::is_valid("00f067aa0ba902b7"));
    assert!(!HexId::<16>::is_valid("00F067AA0BA902B7"));
    assert!(!HexId::<16>::is_valid("AAAAAAAAAAAAAAAA"));
    assert!(HexId::<16>::new("AAAAAAAAAAAAAAAA".to_string()).is_err());
}

#[test]
fn report_options_default_is_new() {
    assert_eq!(ReportOptions::default(), ReportOptions::new());
    assert_eq!(ReportOptions::default().max_depth, None);
}

#[test]
fn set_severity_keeps_everything_else() {
    let trace = StackTrace::new(StackTraceFormat::Raw).with_raw("frame".to_string());
    let report = Report::new(3u8, "boom".to_string(), "app::Boom".to_string())
        .with_stack_trace(trace)
        .set_severity(Severity::Error);
    assert!(report.stack_trace.is_some());
    assert_eq!(report.inner, 3u8);
    assert_eq!(report.severity(), Some(Severity::Error));
}

#[test]
fn display_mode_from_parsed_results() {
    assert!(matches!(
        display_mode_from_parsed(Some("x {0}".to_string()), None),
        Ok(DisplayMode::Template(t)) if t == "x {0}"
    ));
    assert!(matches!(display_mode_from_parsed(None, Some("transparent".to_string())), Ok(DisplayMode::Transparent)));
    assert!(matches!(
        display_mode_from_parsed(None, Some("opaque".to_string())),
        Err(DisplayModeError::Unsupported)
    ));
    assert!(matches!(display_mode_from_parsed(None, None), Err(DisplayModeError::Malformed)));
}

#[test]
fn merged_set_attributes_put_one_derive_first_and_keep_the_rest() {
    let attrs = vec![
        SetAttr::Other("#[allow(dead_code)]".to_string()),
        SetAttr::Derive(names(&["Clone", "Copy"])),
        SetAttr::Other("#[non_exhaustive]".to_string()),
        SetAttr::Derive(names(&["PartialEq", "Clone"])),
    ];
    let merged = merge_set_attrs(&attrs);
    assert_eq!(merged.len(), 3);
    match &merged[0] {
        SetAttr::Derive(list) => assert_eq!(list, &names(&["Clone", "Copy", "PartialEq", "Debug"])),
        other => panic!("expected the derive list first, got {other:?}"),
    }
    assert!(matches!(&merged[1], SetAttr::Other(t) if t == "#[allow(dead_code)]"));
    assert!(matches!(&merged[2], SetAttr::Other(t) if t == "#[non_exhaustive]"));
}

#[test]
fn from_impls_go_from_subsets_to_other_supersets() {
    let sets = vec![
        SetMembers { name: "SetA".to_string(), members: names(&["Variant1"]) },
        SetMembers { name: "SetB".to_string(), members: names(&["Variant1", "Variant2"]) },
    ];
    assert_eq!(from_impl_pairs(&sets), vec![(1, 0)]);
    let twins = vec![
        SetMembers { name: "A".to_string(), members: names(&["X"]) },
        SetMembers { name: "B".to_string(), members: names(&["X"]) },
    ];
    assert_eq!(from_impl_pairs(&twins), vec![(0, 1), (1, 0)]);
}

#[test]
fn report_constructors_end_in_report() {
    assert_eq!(report_constructor_name("new_invalid_token"), "new_invalid_token_report");
    assert_eq!(report_constructor_name("invalid_token"), "invalid_token_report");
}

fn walk_messages(mut walk: OriginSourceWalk) -> (Vec<(String, usize)>, bool, bool) {
    let mut out = Vec::new();
    while let Some(e) = walk.next() {
        out.push((e.message, e.depth));
    }
    let st = walk.state();
    (out, st.truncated, st.cycle_detected)
}

#[test]
fn source_iteration_can_disable_cycle_detection() {
    let graph = ErrorGraph {
        nodes: vec![ErrorNode { message: "loop error".to_string(), identity: 7, source: Some(0) }],
    };
    let report = Report::new(0u8, "loop error".to_string(), "report::LoopError".to_string());
    let walk = report.iter_origin_src_ext(graph, Some(0), CauseCollectOptions { max_depth: 4, detect_cycle: false });
    let (collected, truncated, cycle) = walk_messages(walk);
    let messages: Vec<&str> = collected.iter().map(|(m, _)| m.as_str()).collect();
    assert_eq!(messages, vec!["loop error", "loop error", "loop error", "loop error"]);
    assert!(truncated);
    assert!(!cycle);

    let graph = ErrorGraph {
        nodes: vec![ErrorNode { message: "loop error".to_string(), identity: 7, source: Some(0) }],
    };
    let walk = report.iter_origin_src_ext(graph, Some(0), CauseCollectOptions { max_depth: 4, detect_cycle: true });
    let (collected, truncated, cycle) = walk_messages(walk);
    assert_eq!(collected, vec![("loop error".to_string(), 0)]);
    assert!(!truncated);
    assert!(cycle);
}

#[test]
fn wrap_keeps_explicit_source_chain_isolated_from_inner_source() {
    let mut diag = SourceErrorChain::new();
    let id = diag.push_node(SourceErrorItem::new("api unauthorized".to_string(), Some("report::ApiError".to_string()), 3));
    diag.push_root(id);
    let report = Report::new(500u16, "api wrapped code=500".to_string(), "report::ApiError".to_string())
        .with_diag_src_err_chain(diag);
    let graph = ErrorGraph {
        nodes: vec![
            ErrorNode { message: "sourceful error".to_string(), identity: 1, source: Some(1) },
            ErrorNode { message: "natural source".to_string(), identity: 2, source: None },
        ],
    };
    let walk = report.iter_origin_src_ext(graph, Some(0), CauseCollectOptions { max_depth: 8, detect_cycle: true });
    let (collected, _, _) = walk_messages(walk);
    let messages: Vec<&str> = collected.iter().map(|(m, _)| m.as_str()).collect();
    assert!(!messages.iter().any(|m| *m == "api unauthorized"));
    assert!(messages.iter().any(|m| *m == "natural source"));
    assert_eq!(collected, vec![("sourceful error".to_string(), 0), ("natural source".to_string(), 1)]);
}

#[test]
fn origin_walk_reads_recorded_chain_before_inner_sources() {
    let mut origin = SourceErrorChain::new();
    let id = origin.push_node(SourceErrorItem::new(
        "auth invalid token".to_string(),
        Some("diagweave::report::Report<report::AuthError>".to_string()),
        9,
    ));
    origin.push_root(id);
    let report = Report::new(0u8, "outer".to_string(), "report::Outer".to_string()).with_source_error_chain(origin);
    let graph = ErrorGraph { nodes: vec![ErrorNode { message: "io timeout".to_string(), identity: 4, source: None }] };
    let mut walk = report.iter_origin_src_ext(graph, Some(0), CauseCollectOptions { max_depth: 8, detect_cycle: true });
    let first = walk.next().unwrap();
    assert_eq!(first.message, "auth invalid token");
    assert_eq!(first.display_type_name, None);
    let second = walk.next().unwrap();
    assert_eq!(second.message, "io timeout");
    assert_eq!(second.depth, 0);
    assert!(walk.next().is_none());
    assert!(walk.next().is_none());
}

#[test]
fn diag_wraps_only_errors() {
    let ok: Result<u8, String> = Ok(4);
    assert!(matches!(ok.diag(|e: &String| e.clone(), "std::string::String".to_string()), Ok(4)));
    let err: Result<u8, String> = Err("parse failed".to_string());
    let report = err.diag(|e: &String| e.clone(), "std::string::String".to_string()).unwrap_err();
    assert_eq!(report.inner, "parse failed");
    assert_eq!(report.message, "parse failed");
    assert_eq!(report.type_label, "std::string::String");
    assert!(report.severity().is_none());
}
