use diagweave::attachment::{value_to_text, AttachmentValue};
use diagweave::cause::CauseTraversalState;
use diagweave::config::{BuildProfile, ConfigSource, GlobalConfig, ReportOptions, ResolvedValue};
use diagweave::error_code::{ErrorCode, ErrorCodeIntError};
use diagweave::global::{GlobalErrorMeta, GlobalTraceContext};
use diagweave::otel::{OtelSeverityNumber, OtelValue};
use diagweave::report::Report;
use diagweave::severity::Severity;
use diagweave::source_chain::{SourceErrorChain, SourceErrorItem};
use diagweave::trace::{HexId, ReportTrace, TraceContext, TraceState};

fn text(s: &str) -> AttachmentValue {
    AttachmentValue::String(s.to_string())
}

#[test]
fn error_code_integer_reads_into_every_width_that_holds_it() {
    let code = ErrorCode::Integer(200);
    assert_eq!(code.to_i8(), Err(ErrorCodeIntError::OutOfRange));
    assert_eq!(code.to_i16(), Ok(200));
    assert_eq!(code.to_i32(), Ok(200));
    assert_eq!(code.to_i64(), Ok(200));
    assert_eq!(code.to_i128(), Ok(200));
    assert_eq!(code.to_isize(), Ok(200));
    assert_eq!(code.to_u8(), Ok(200));
    assert_eq!(code.to_u16(), Ok(200));
    assert_eq!(code.to_u32(), Ok(200));
    assert_eq!(code.to_u64(), Ok(200));
    assert_eq!(code.to_u128(), Ok(200));
    assert_eq!(code.to_usize(), Ok(200));
}

#[test]
fn error_code_negative_integer_is_out_of_range_for_unsigned_widths() {
    let code = ErrorCode::Integer(-5);
    assert_eq!(code.to_i8(), Ok(-5));
    assert_eq!(code.to_u8(), Err(ErrorCodeIntError::OutOfRange));
    assert_eq!(code.to_u16(), Err(ErrorCodeIntError::OutOfRange));
    assert_eq!(code.to_u32(), Err(ErrorCodeIntError::OutOfRange));
    assert_eq!(code.to_u64(), Err(ErrorCodeIntError::OutOfRange));
    assert_eq!(code.to_u128(), Err(ErrorCodeIntError::OutOfRange));
    assert_eq!(code.to_usize(), Err(ErrorCodeIntError::OutOfRange));
}

#[test]
fn error_code_strings_parse_as_decimal_literals() {
    let code = ErrorCode::from_string("-42".to_string());
    assert_eq!(code.to_i16(), Ok(-42));
    assert_eq!(code.to_u16(), Err(ErrorCodeIntError::InvalidIntegerString));
    let code = ErrorCode::from_string("E1001".to_string());
    assert_eq!(code.to_i32(), Err(ErrorCodeIntError::InvalidIntegerString));
    assert_eq!(code.to_u32(), Err(ErrorCodeIntError::InvalidIntegerString));
    let code = ErrorCode::from_string("70000".to_string());
    assert_eq!(code.to_u16(), Err(ErrorCodeIntError::OutOfRange));
    assert_eq!(code.to_u32(), Ok(70000));
}

#[test]
fn error_code_wide_integers_fall_back_to_decimal_strings() {
    let big = ErrorCode::from_u64(u64::MAX);
    assert_eq!(big.to_code_string(), "18446744073709551615");
    assert!(matches!(big, ErrorCode::String(_)));
    assert_eq!(big.to_u64(), Ok(u64::MAX));
    assert_eq!(big.to_i64(), Err(ErrorCodeIntError::OutOfRange));

    let small = ErrorCode::from_u64(7);
    assert!(matches!(small, ErrorCode::Integer(7)));

    let neg = ErrorCode::from_i128(-170141183460469231731687303715884105728);
    assert_eq!(neg.to_code_string(), "-170141183460469231731687303715884105728");
    assert_eq!(neg.to_i128(), Ok(i128::MIN));
    assert!(matches!(ErrorCode::from_i128(-9), ErrorCode::Integer(-9)));

    let huge = ErrorCode::from_u128(u128::MAX);
    assert_eq!(huge.to_code_string(), "340282366920938463463374607431768211455");
    assert_eq!(huge.to_u128(), Ok(u128::MAX));
    assert!(matches!(ErrorCode::from_u128(12), ErrorCode::Integer(12)));
}

#[test]
fn error_code_same_as_compares_kind_and_value() {
    let a = ErrorCode::Integer(5);
    assert!(a.same_as(&ErrorCode::Integer(5)));
    assert!(!a.same_as(&ErrorCode::Integer(6)));
    assert!(!a.same_as(&ErrorCode::from_string("5".to_string())));
    assert!(ErrorCode::from_string("E1".to_string()).same_as(&ErrorCode::from_string("E1".to_string())));
    assert!(!ErrorCode::from_string("E1".to_string()).same_as(&ErrorCode::from_string("E2".to_string())));
}

#[test]
fn severity_from_label_ignores_case_and_takes_aliases() {
    assert_eq!(Severity::from_label("DEBUG"), Severity::Debug);
    assert_eq!(Severity::from_label("Info"), Severity::Info);
    assert_eq!(Severity::from_label("warning"), Severity::Warn);
    assert_eq!(Severity::from_label("WARN"), Severity::Warn);
    assert_eq!(Severity::from_label("critical"), Severity::Fatal);
    assert_eq!(Severity::from_label("fatal"), Severity::Fatal);
    assert_eq!(Severity::from_label("whatever"), Severity::Error);
}

#[test]
fn traversal_state_merge_only_sets_flags() {
    let mut state = CauseTraversalState::new();
    state.merge_from(CauseTraversalState { truncated: true, cycle_detected: false });
    assert!(state.truncated);
    assert!(!state.cycle_detected);
    state.merge_from(CauseTraversalState::new());
    assert!(state.truncated);
    assert!(!state.cycle_detected);
    state.merge_from(CauseTraversalState { truncated: false, cycle_detected: true });
    assert!(state.truncated);
    assert!(state.cycle_detected);
}

#[test]
fn resolved_value_gives_back_its_value() {
    let r = ResolvedValue::new(12usize, ConfigSource::Report);
    assert_eq!(r.into_value(), 12);
}

#[test]
fn report_options_resolve_into_cause_options() {
    let global = GlobalConfig::new(BuildProfile::Release).with_max_depth(3).with_cycle_detection(true);
    let opts = ReportOptions::new().with_max_depth(7).as_cause_options(&global);
    assert_eq!(opts.max_depth, 7);
    assert!(opts.detect_cycle);
    let opts = ReportOptions::new().with_cycle_detection(false).as_cause_options(&global);
    assert_eq!(opts.max_depth, 3);
    assert!(!opts.detect_cycle);
}

#[test]
fn report_with_system_fills_the_runtime_section() {
    let report = Report::new(0u8, "boom".to_string(), "app::Boom".to_string())
        .with_system("thread".to_string(), text("main"))
        .with_system("pid".to_string(), AttachmentValue::Unsigned(42))
        .with_system("thread".to_string(), text("worker"));
    let entries = report.system.runtime.sorted_entries();
    assert_eq!(entries.len(), 2);
    assert_eq!(entries[0].0, "pid");
    assert_eq!(entries[0].1, AttachmentValue::Unsigned(42));
    assert_eq!(entries[1].0, "thread");
    assert_eq!(entries[1].1, text("worker"));
    assert!(report.context.is_empty());
}

#[test]
fn report_set_options_replaces_all_options() {
    let opts = ReportOptions::new().with_max_depth(2).with_accumulate_source_chain(true);
    let report = Report::new(0u8, "boom".to_string(), "app::Boom".to_string()).set_options(opts);
    assert_eq!(report.options.max_depth, Some(2));
    assert_eq!(report.options.accumulate_source_chain, Some(true));
    assert_eq!(report.options.detect_cycle, None);
    assert_eq!(report.message, "boom");
}

#[test]
fn value_to_text_renders_nested_values() {
    let v = AttachmentValue::Object(vec![
        ("ids".to_string(), AttachmentValue::Array(vec![AttachmentValue::Integer(-1), AttachmentValue::Unsigned(2)])),
        ("ok".to_string(), AttachmentValue::Bool(false)),
        ("raw".to_string(), AttachmentValue::Bytes(vec![1, 2, 3])),
    ]);
    assert_eq!(value_to_text(&v), "{ids: [-1, 2], ok: false, raw: <3 bytes>}");
    assert_eq!(value_to_text(&AttachmentValue::Null), "null");
    let secret = AttachmentValue::Redacted { kind: Some("token".to_string()), reason: None };
    assert_eq!(value_to_text(&secret), "<redacted:token>");
    assert_eq!(value_to_text(&AttachmentValue::Redacted { kind: None, reason: None }), "<redacted>");
}

#[test]
fn otel_severity_numbers_are_the_named_ones() {
    for n in [1u8, 5, 9, 13, 17, 21] {
        assert_eq!(OtelSeverityNumber::try_from_u8(n).map(|s| s.as_u8()), Ok(n));
    }
    for n in [0u8, 2, 8, 10, 22, 255] {
        assert!(OtelSeverityNumber::try_from_u8(n).is_err());
    }
}

#[test]
fn otel_value_from_owned_attachment() {
    assert_eq!(OtelValue::from_attachment(text("x")), OtelValue::String("x".to_string()));
    assert_eq!(OtelValue::from_attachment(AttachmentValue::Unsigned(9)), OtelValue::U64(9));
    assert_eq!(OtelValue::from_attachment(AttachmentValue::Null), OtelValue::KvList(vec![]));
}

#[test]
fn source_chain_entries_walk_depth_first_and_hide_wrappers() {
    let mut chain = SourceErrorChain::new();
    let root = chain.push_node(SourceErrorItem {
        message: "request failed".to_string(),
        type_label: Some("diagweave::report::Report<app::ApiError>".to_string()),
        identity: 1,
        source_roots: vec![1],
    });
    chain.push_node(SourceErrorItem::new("db down".to_string(), Some("app::DbError".to_string()), 2));
    chain.push_root(root);

    let mut entries = chain.iter_entries(true);
    let first = entries.next().unwrap();
    assert_eq!(first.message, "request failed");
    assert_eq!(first.depth, 0);
    assert_eq!(first.display_type_name, None);
    assert_eq!(first.type_label.as_deref(), Some("diagweave::report::Report<app::ApiError>"));
    let second = entries.next().unwrap();
    assert_eq!(second.message, "db down");
    assert_eq!(second.depth, 1);
    assert_eq!(second.display_type_name.as_deref(), Some("app::DbError"));
    assert!(entries.next().is_none());
}

#[test]
fn report_trace_set_context_replaces_and_with_context_fills_only_empty() {
    let span = HexId::<16>::new("00f067aa0ba902b7".to_string()).unwrap();
    let ctx = TraceContext { span_id: Some(span), ..TraceContext::new() };
    let trace = ReportTrace::new().with_context(ctx);
    assert_eq!(trace.context().unwrap().span_id.as_ref().unwrap().as_str(), "00f067aa0ba902b7");

    let other = HexId::<16>::new("0000000000000001".to_string()).unwrap();
    let trace = trace.with_context(TraceContext { span_id: Some(other), ..TraceContext::new() });
    assert_eq!(trace.context().unwrap().span_id.as_ref().unwrap().as_str(), "00f067aa0ba902b7");

    let replacement = HexId::<16>::new("0000000000000002".to_string()).unwrap();
    let trace = trace.set_context(TraceContext { span_id: Some(replacement), ..TraceContext::new() });
    assert_eq!(trace.context().unwrap().span_id.as_ref().unwrap().as_str(), "0000000000000002");
}

#[test]
fn report_trace_option_setters_fill_only_absent_values() {
    let parent = HexId::<16>::new("00000000000000aa".to_string()).unwrap();
    let trace = ReportTrace::new()
        .set_parent_span_id_opt(Some(parent))
        .set_trace_state_opt(Some(TraceState::new("vendor=1".to_string())));
    let ctx = trace.context().unwrap();
    assert_eq!(ctx.parent_span_id.as_ref().unwrap().as_str(), "00000000000000aa");
    assert_eq!(ctx.trace_state.as_ref().unwrap().as_str(), "vendor=1");

    let second = HexId::<16>::new("00000000000000bb".to_string()).unwrap();
    let trace = trace
        .set_parent_span_id_opt(Some(second))
        .set_trace_state_opt(Some(TraceState::new("vendor=2".to_string())))
        .set_parent_span_id_opt(None)
        .set_trace_state_opt(None);
    let ctx = trace.context().unwrap();
    assert_eq!(ctx.parent_span_id.as_ref().unwrap().as_str(), "00000000000000aa");
    assert_eq!(ctx.trace_state.as_ref().unwrap().as_str(), "vendor=1");
}

#[test]
fn report_trace_context_mut_edits_in_place() {
    let mut trace = ReportTrace::new();
    assert!(trace.context_mut().is_none());
    let mut trace2 = trace.set_context(TraceContext::new());
    if let Some(ctx) = trace2.context_mut() {
        ctx.sampled = Some(true);
    }
    assert_eq!(trace2.context().unwrap().sampled, Some(true));
    trace = trace2;
    assert!(trace.context_mut().is_some());
}

#[test]
fn global_meta_and_trace_context_emptiness() {
    let meta = GlobalErrorMeta::default();
    assert!(meta.is_empty());
    let meta = GlobalErrorMeta { retryable: Some(false), ..GlobalErrorMeta::default() };
    assert!(!meta.is_empty());
    let meta = GlobalErrorMeta { error_code: Some(ErrorCode::Integer(3)), category: None, retryable: None };
    assert!(!meta.is_empty());

    let ctx = GlobalTraceContext::default();
    assert!(ctx.is_empty());
    let ctx = GlobalTraceContext { sampled: Some(true), ..GlobalTraceContext::default() };
    assert!(!ctx.is_empty());
    let span = HexId::<16>::new("00f067aa0ba902b7".to_string()).unwrap();
    let ctx = GlobalTraceContext { span_id: Some(span), ..GlobalTraceContext::default() };
    assert!(!ctx.is_empty());
}

#[test]
fn trace_state_exposes_its_text() {
    let state = TraceState::new("vendor=blue".to_string());
    assert_eq!(state.as_str(), "vendor=blue");
    assert_eq!(state.as_static_ref(), &"vendor=blue".to_string());
}
