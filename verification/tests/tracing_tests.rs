use diagweave::attachment::{Attachment, AttachmentValue, ContextMap};
use diagweave::cause::CauseTraversalState;
use diagweave::error_code::ErrorCode;
use diagweave::ir::{DiagnosticIrError, DiagnosticIrMessage};
use diagweave::otel::{OtelEnvelopeConfig, OtelValue};
use diagweave::ir_values::{
    build_ctx_and_attachments, build_display_causes_value, build_error_value, build_source_chain_value,
    build_source_errors_value, build_stack_frame_value, build_stack_trace_value, build_trace_attachment_context_value,
    build_trace_attachment_event_value, build_trace_value,
};
use diagweave::render::{Pretty, ReportRenderOptions};
use diagweave::report::{Report, StackFrame, StackTrace, StackTraceFormat};
use diagweave::severity::Severity;
use diagweave::source_chain::{SourceErrorChain, SourceErrorItem};
use diagweave::trace::{HexId, ReportTrace, TraceContext, TraceEvent, TraceEventAttribute, TraceEventLevel, TraceFlags, TraceState};
use diagweave::trace_emit::{EmitStats, PreparedTracingEmission, PreparedTracingLevel, TracingField};

fn s(v: &str) -> String {
    v.to_string()
}

fn text(v: &str) -> AttachmentValue {
    AttachmentValue::String(v.to_string())
}

fn obj(entries: Vec<(&str, AttachmentValue)>) -> AttachmentValue {
    AttachmentValue::Object(entries.into_iter().map(|(k, v)| (k.to_string(), v)).collect())
}

fn api_report() -> Report<u8> {
    Report::new(0u8, s("api unauthorized"), s("report::ApiError"))
}

fn trace_id() -> HexId<32> {
    HexId::<32>::new(s("4bf92f3577b34da6a3ce929d0e0e4736")).unwrap()
}

fn span_id() -> HexId<16> {
    HexId::<16>::new(s("00f067aa0ba902b7")).unwrap()
}

fn field<'a>(fields: &'a [TracingField], key: &str) -> Option<&'a AttachmentValue> {
    fields.iter().find(|f| f.key == key).map(|f| &f.value)
}

fn get<'a>(v: &'a AttachmentValue, key: &str) -> Option<&'a AttachmentValue> {
    match v {
        AttachmentValue::Object(entries) => entries.iter().find(|(k, _)| k == key).map(|(_, v)| v),
        _ => None,
    }
}

#[test]
fn cause_tree_supports_multiple_sources_and_events() {
    let report = api_report()
        .with_display_cause(s("auth invalid token"))
        .with_display_cause(s("request was retried"))
        .with_display_cause(s("fallback cache missed"))
        .with_display_cause(s("api wrapped code=502"));
    let pretty = Pretty::new(ReportRenderOptions::default_options()).render_text(&report);
    assert!(pretty.contains("auth invalid token"));
    assert!(pretty.contains("request was retried"));
    assert!(pretty.contains("fallback cache missed"));
    assert!(pretty.contains("api wrapped code=502"));
}

#[test]
fn source_errors_field_matches_json_shape_in_tracing_fields() {
    let mut chain = SourceErrorChain::new();
    let a = chain.push_node(SourceErrorItem::new(s("auth invalid token"), Some(s("report_common::AuthError")), 1));
    chain.push_root(a);
    let b = chain.push_node(SourceErrorItem::new(s("network down"), Some(s("std::io::error::Error")), 2));
    chain.push_root(b);
    let report = api_report().with_diag_src_err_chain(chain);

    let fields = report.to_tracing_fields();
    let source_errors = field(&fields, "diagnostic_bag.diagnostic_source_errors").expect("field should be present");
    assert_eq!(get(source_errors, "truncated"), Some(&AttachmentValue::Bool(false)));
    assert_eq!(get(source_errors, "cycle_detected"), Some(&AttachmentValue::Bool(false)));
    let Some(AttachmentValue::Array(roots)) = get(source_errors, "roots") else { panic!("roots should be an array") };
    assert_eq!(roots.len(), 2);
    assert_eq!(roots[0], AttachmentValue::Integer(0));
    assert_eq!(roots[1], AttachmentValue::Integer(1));
    let Some(AttachmentValue::Array(nodes)) = get(source_errors, "nodes") else { panic!("nodes should be an array") };
    assert_eq!(nodes.len(), 2);
    assert_eq!(get(&nodes[0], "message"), Some(&text("auth invalid token")));
    assert_eq!(get(&nodes[0], "type"), Some(&text("report_common::AuthError")));
    assert_eq!(get(&nodes[0], "source_roots"), Some(&AttachmentValue::Array(Vec::new())));
}

#[test]
fn tracing_exporter_skips_empty_trace_section() {
    let report = api_report().with_trace(ReportTrace::new());
    let fields = report.to_tracing_fields();
    assert!(fields.iter().all(|f| f.key != "trace"));
}

#[test]
fn hex_ids_reject_all_zero_values() {
    assert!(HexId::<32>::new(s("00000000000000000000000000000000")).is_err());
    assert!(HexId::<16>::new(s("0000000000000000")).is_err());
}

#[test]
fn hex_ids_check_width_and_digits() {
    assert!(HexId::<16>::new(s("00f067aa0ba902b")).is_err());
    assert!(HexId::<16>::new(s("00f067aa0ba902bz")).is_err());
    assert!(HexId::<16>::new(s("00F067AA0BA902B7")).is_err());
    assert!(HexId::<16>::new(s("00f067aa0ba902b7")).is_ok());
}

fn db_event(level: Option<TraceEventLevel>) -> TraceEvent {
    TraceEvent {
        name: s("db.query"),
        level,
        timestamp_unix_nano: Some(1_713_337_100_000_000_000),
        attributes: vec![TraceEventAttribute { key: s("db.system"), value: text("postgres") }],
    }
}

#[test]
fn tracing_exporter_trait_receives_prepared_emission() {
    let report = api_report()
        .set_severity(Severity::Info)
        .with_trace_ids(trace_id(), span_id())
        .with_trace_event(db_event(Some(TraceEventLevel::Info)))
        .with_display_cause(s("fallback path"));
    let prepared = report.prepare_tracing();
    let stats = prepared.stats();
    assert_eq!(stats, EmitStats { report_events_emitted: 1, trace_events_emitted: 1 });
    assert_eq!(stats.total_events_emitted(), 2);
    assert!(report.stack_trace.is_none());
    assert_eq!(report.trace.events.len(), 1);
}

#[test]
fn tracing_exporter_uses_report_severity_for_unset_trace_events_and_carries_context() {
    let report = api_report()
        .set_severity(Severity::Error)
        .with_trace_ids(trace_id(), span_id())
        .with_parent_span_id(HexId::<16>::new(s("1111111111111111")).unwrap())
        .with_trace_sampled(true)
        .with_trace_state(s("vendor=blue"))
        .with_trace_flags(TraceFlags::new(1))
        .with_trace_event(TraceEvent {
            name: s("db.query"),
            level: None,
            timestamp_unix_nano: Some(1_713_337_100_000_000_000),
            attributes: vec![],
        });
    let prepared = report.prepare_tracing();
    assert_eq!(prepared.report_level(), PreparedTracingLevel::Error);
    assert_eq!(prepared.trace_event_level(0), Some(PreparedTracingLevel::Error));
    assert_eq!(prepared.trace_event_level(1), None);
    let ctx = report.trace.context.as_ref().unwrap();
    assert_eq!(ctx.parent_span_id.as_ref().map(|v| v.as_str()), Some("1111111111111111"));
    assert_eq!(ctx.sampled, Some(true));
    assert_eq!(ctx.trace_state.as_ref().map(|v| v.as_str()), Some("vendor=blue"));
    assert_eq!(ctx.flags.map(|f| f.bits()), Some(1));
}

#[test]
fn diagnostic_ir_requires_explicit_severity_upgrade_before_tracing() {
    let report = api_report()
        .with_trace_ids(trace_id(), span_id())
        .with_trace_event(db_event(Some(TraceEventLevel::Info)));
    assert_eq!(report.severity(), None);
    let upgraded = report.set_severity(Severity::Warn);
    let prepared = upgraded.prepare_tracing();
    assert_eq!(prepared.report_level(), PreparedTracingLevel::Warn);
    assert_eq!(prepared.trace_event_levels(), &[PreparedTracingLevel::Info]);
}

#[test]
fn fatal_reports_emit_at_error_level() {
    let prepared = PreparedTracingEmission::prepare(Severity::Fatal, &vec![db_event(None), db_event(Some(TraceEventLevel::Debug))]);
    assert_eq!(prepared.report_level(), PreparedTracingLevel::Error);
    assert_eq!(prepared.trace_event_levels(), &[PreparedTracingLevel::Error, PreparedTracingLevel::Debug]);
    assert_eq!(prepared.report_level().label(), "error");
}

#[test]
fn error_value_has_message_and_type() {
    assert_eq!(build_error_value("boom", "app::E"), obj(vec![("message", text("boom")), ("type", text("app::E"))]));
}

#[test]
fn trace_context_value_lists_every_field_in_key_order() {
    let empty = build_trace_attachment_context_value(&TraceContext::new());
    assert_eq!(
        empty,
        obj(vec![
            ("flags", AttachmentValue::Null),
            ("parent_span_id", AttachmentValue::Null),
            ("sampled", AttachmentValue::Null),
            ("span_id", AttachmentValue::Null),
            ("trace_id", AttachmentValue::Null),
            ("trace_state", AttachmentValue::Null),
        ])
    );
    let mut ctx = TraceContext::new();
    ctx.trace_id = Some(trace_id());
    ctx.sampled = Some(true);
    ctx.flags = Some(TraceFlags::new(3));
    let v = build_trace_attachment_context_value(&ctx);
    assert_eq!(get(&v, "trace_id"), Some(&text("4bf92f3577b34da6a3ce929d0e0e4736")));
    assert_eq!(get(&v, "sampled"), Some(&AttachmentValue::Bool(true)));
    assert_eq!(get(&v, "flags"), Some(&AttachmentValue::Unsigned(3)));
}

#[test]
fn trace_event_value_carries_attributes_level_and_timestamp() {
    let v = build_trace_attachment_event_value(&db_event(Some(TraceEventLevel::Warn)));
    assert_eq!(
        v,
        obj(vec![
            ("attributes", AttachmentValue::Array(vec![obj(vec![("key", text("db.system")), ("value", text("postgres"))])])),
            ("level", text("warn")),
            ("name", text("db.query")),
            ("timestamp_unix_nano", AttachmentValue::Unsigned(1_713_337_100_000_000_000)),
        ])
    );
}

#[test]
fn trace_value_holds_context_error_and_events() {
    let trace = ReportTrace::new().with_event(db_event(None));
    let v = build_trace_value(&trace, "boom", "app::E");
    assert_eq!(get(&v, "error"), Some(&build_error_value("boom", "app::E")));
    assert_eq!(get(&v, "context"), Some(&build_trace_attachment_context_value(&TraceContext::new())));
    let Some(AttachmentValue::Array(events)) = get(&v, "events") else { panic!("events array") };
    assert_eq!(events.len(), 1);
    assert_eq!(get(&events[0], "level"), Some(&AttachmentValue::Null));
}

#[test]
fn stack_values_list_frames_and_raw_text() {
    let frame = StackFrame { symbol: Some(s("main")), module: None, file: Some(s("src/main.rs")), line: Some(7), column: None };
    assert_eq!(
        build_stack_frame_value(&frame),
        obj(vec![
            ("column", AttachmentValue::Null),
            ("file", text("src/main.rs")),
            ("line", AttachmentValue::Unsigned(7)),
            ("module_path", AttachmentValue::Null),
            ("symbol", text("main")),
        ])
    );
    let st = StackTrace::new(StackTraceFormat::Raw).with_raw(s("a\nb"));
    assert_eq!(
        build_stack_trace_value(&st),
        obj(vec![("format", text("raw")), ("frames", AttachmentValue::Array(vec![])), ("raw", text("a\nb"))])
    );
}

#[test]
fn cause_values_carry_items_and_flags() {
    let state = CauseTraversalState { truncated: true, cycle_detected: false };
    assert_eq!(
        build_display_causes_value(&vec![s("first")], state),
        obj(vec![
            ("cycle_detected", AttachmentValue::Bool(false)),
            ("items", AttachmentValue::Array(vec![text("first")])),
            ("truncated", AttachmentValue::Bool(true)),
        ])
    );
    assert_eq!(
        build_source_errors_value(&vec![s("io down")], state),
        obj(vec![
            ("cycle_detected", AttachmentValue::Bool(false)),
            ("items", AttachmentValue::Array(vec![obj(vec![("message", text("io down"))])])),
            ("truncated", AttachmentValue::Bool(true)),
        ])
    );
}

#[test]
fn source_chain_value_hides_report_wrapper_types_on_request() {
    let mut chain = SourceErrorChain::new();
    let a = chain.push_node(SourceErrorItem::new(s("inner"), Some(s("diagweave::report::Report<app::E>")), 4));
    chain.push_root(a);
    let hidden = build_source_chain_value(&chain, true);
    let Some(AttachmentValue::Array(nodes)) = get(&hidden, "nodes") else { panic!("nodes") };
    assert_eq!(get(&nodes[0], "type"), None);
    let shown = build_source_chain_value(&chain, false);
    let Some(AttachmentValue::Array(nodes)) = get(&shown, "nodes") else { panic!("nodes") };
    assert_eq!(get(&nodes[0], "type"), Some(&text("diagweave::report::Report<app::E>")));
}

#[test]
fn context_and_attachment_items_keep_their_order() {
    let mut ctx = ContextMap::new();
    ctx.insert(s("zone"), text("eu"));
    ctx.insert(s("app"), text("api"));
    let atts = vec![Attachment::note(s("retry later")), Attachment::payload(s("body"), text("ok"), None)];
    let (c, a) = build_ctx_and_attachments(&ctx, &atts);
    assert_eq!(c, vec![obj(vec![("key", text("app")), ("value", text("api"))]), obj(vec![("key", text("zone")), ("value", text("eu"))])]);
    assert_eq!(
        a,
        vec![
            obj(vec![("kind", text("note")), ("message", text("retry later"))]),
            obj(vec![("kind", text("payload")), ("media_type", AttachmentValue::Null), ("name", text("body")), ("value", text("ok"))]),
        ]
    );
}

#[test]
fn tracing_fields_follow_report_contents_in_order() {
    let report = api_report()
        .with_error_code(ErrorCode::from_i64(401))
        .set_severity(Severity::Warn)
        .with_retryable(true)
        .with_trace_ids(trace_id(), span_id())
        .with_ctx(s("request_id"), text("r-1"))
        .attach_note(s("n"));
    let fields = report.to_tracing_fields();
    let keys: Vec<&str> = fields.iter().map(|f| f.key.as_str()).collect();
    assert_eq!(
        keys,
        vec!["error", "metadata.error_code", "metadata.severity", "metadata.retryable", "trace", "context", "attachments"]
    );
    assert_eq!(field(&fields, "metadata.error_code"), Some(&AttachmentValue::Integer(401)));
    assert_eq!(field(&fields, "metadata.severity"), Some(&text("warn")));
    let bare = api_report().to_tracing_fields();
    assert_eq!(bare.len(), 1);
}

#[test]
fn diagnostic_message_text_is_owned_on_request() {
    let borrowed = DiagnosticIrMessage::Borrowed("api unauthorized");
    let owned = DiagnosticIrMessage::Owned(s("api unauthorized"));
    assert_eq!(borrowed.to_string_owned(), "api unauthorized");
    assert!(borrowed.same_text(&owned));
    assert!(!borrowed.same_text(&DiagnosticIrMessage::Owned(s("other"))));
    let err = DiagnosticIrError::new("api unauthorized", "report::ApiError");
    assert_eq!(err.message.to_string_owned(), "api unauthorized");
    assert_eq!(err.type_label, "report::ApiError");
}

#[test]
fn report_trace_setters_fill_and_replace() {
    let r = api_report().set_trace_ids(trace_id(), span_id()).set_trace_flags(TraceFlags::new(2));
    let ctx = r.trace().context.as_ref().unwrap();
    assert_eq!(ctx.sampled, Some(false));
    let r = r.with_trace_sampled(true);
    assert_eq!(r.trace.context.as_ref().unwrap().sampled, Some(false));
    let r = r.set_trace_sampled(true);
    assert_eq!(r.trace.context.as_ref().unwrap().flags.map(|f| f.bits()), Some(3));
    let r = r.set_trace_state(s("a=1")).push_trace_event(s("tick")).push_trace_event_with(s("tock"), Some(TraceEventLevel::Debug), Some(5), vec![]);
    assert_eq!(r.trace.events.len(), 2);
    assert_eq!(r.trace.events[0].name, "tick");
    assert_eq!(r.trace.events[1].timestamp_unix_nano, Some(5));
    let r = r.set_trace(ReportTrace::new());
    assert!(r.trace.is_empty());
}

#[test]
fn optional_trace_setters_fill_only_missing_values() {
    let t = ReportTrace::new()
        .set_parent_span_id_opt(Some(HexId::<16>::new(s("1111111111111111")).unwrap()))
        .set_parent_span_id_opt(Some(HexId::<16>::new(s("2222222222222222")).unwrap()))
        .set_trace_state_opt(None)
        .set_trace_state_opt(Some(TraceState::new(s("a=1"))))
        .set_trace_state_opt(Some(TraceState::new(s("b=2"))));
    let ctx = t.context.as_ref().unwrap();
    assert_eq!(ctx.parent_span_id.as_ref().map(|v| v.as_str()), Some("1111111111111111"));
    assert_eq!(ctx.trace_state.as_ref().map(|v| v.as_str()), Some("a=1"));
}

#[test]
fn otel_value_conversion_handles_unsigned_overflow_redacted_and_nested_object() {
    let nested = obj(vec![
        ("a", AttachmentValue::Unsigned(u64::MAX)),
        ("b", AttachmentValue::Array(vec![AttachmentValue::Bool(true), obj(vec![("inner", text("ok"))])])),
    ]);
    let report = api_report()
        .with_ctx(s("overflow"), AttachmentValue::Unsigned(u64::MAX))
        .with_ctx(
            s("secret"),
            AttachmentValue::Redacted { kind: Some(s("token")), reason: Some(s("sensitive")) },
        )
        .attach_payload(s("nested"), nested, Some(s("application/json")))
        .with_severity(Severity::Error);

    let otel = report.to_otel_envelope(&OtelEnvelopeConfig::new());
    let record = otel.records.first().expect("report record should exist");
    assert_eq!(record.name, "exception");
    assert_eq!(record.severity_text.as_deref(), Some("error"));
    assert_eq!(record.severity_number.map(|n| n.as_u8()), Some(17));

    let overflow_ctx = record.attributes.iter().find(|v| v.key == "overflow").expect("overflow attribute should exist");
    assert_eq!(overflow_ctx.value, OtelValue::U64(u64::MAX));

    let secret_ctx = record.attributes.iter().find(|v| v.key == "secret").expect("secret attribute should exist");
    match &secret_ctx.value {
        OtelValue::KvList(attrs) => {
            assert!(attrs.iter().any(|a| a.0 == "kind"));
            assert!(attrs.iter().any(|a| a.0 == "reason"));
        }
        other => panic!("expected redacted to convert into kvlist, got: {other:?}"),
    }

    let nested_payload = record
        .attributes
        .iter()
        .find(|a| a.key == "attachment.payload.nested")
        .map(|a| &a.value)
        .expect("nested payload should exist");
    match nested_payload {
        OtelValue::KvList(attrs) => {
            let a_value = attrs.iter().find(|a| a.0 == "a").map(|a| &a.1).expect("nested.a should exist");
            assert_eq!(a_value, &OtelValue::U64(u64::MAX));
            let b_value = attrs.iter().find(|a| a.0 == "b").map(|a| &a.1).expect("nested.b should exist");
            match b_value {
                OtelValue::Array(items) => assert_eq!(items.len(), 2),
                other => panic!("nested.b should be array, got: {other:?}"),
            }
        }
        other => panic!("nested payload should be kvlist, got: {other:?}"),
    }
}

#[test]
fn diagnostic_ir_requires_explicit_severity_upgrade_before_otel() {
    let report = api_report().with_severity(Severity::Warn);
    let otel = report.to_otel_envelope(&OtelEnvelopeConfig::new());
    let record = otel.records.first().expect("report record should exist");
    assert_eq!(record.name, "exception");
    assert_eq!(record.severity_text.as_deref(), Some("warn"));
    assert_eq!(record.severity_number.map(|n| n.as_u8()), Some(13));
}
