use std::cell::Cell;

use diagweave::attachment::{Attachment, AttachmentValue};
use diagweave::error_code::ErrorCode;
use diagweave::ext::{ReportResultExt, ReportResultInspectExt};
use diagweave::report::{Report, StackTrace, StackTraceFormat};
use diagweave::severity::Severity;
use diagweave::transform::Diagnostic;

fn fail_auth() -> Result<(), Report<u8>> {
    let r: Result<(), u8> = Err(1);
    r.diag(|_| "auth invalid token".to_string(), "report::AuthError".to_string())
}

#[test]
fn result_ext_attach_payload_accepts_dynamic_media_type() {
    let media_type = "application/json".to_owned();
    let err = fail_auth()
        .attach_payload("body".to_string(), AttachmentValue::String("ok".to_string()), Some(media_type))
        .expect_err("should fail");
    assert!(matches!(
        &err.attachments()[0],
        Attachment::Payload {
            name,
            value: AttachmentValue::String(value),
            media_type: Some(media_type),
        } if name == "body" && value == "ok" && media_type == "application/json"
    ));
}

#[test]
fn lazy_context_and_note_evaluate_only_on_error() {
    let ok: Result<(), Report<u8>> = Ok(());
    let counter = Cell::new(0usize);
    let _ = ok
        .with_ctx_lazy("hot_path".to_string(), || {
            counter.set(counter.get() + 1);
            AttachmentValue::Bool(true)
        })
        .attach_note_lazy(|| {
            counter.set(counter.get() + 1);
            "should not allocate".to_owned()
        });
    assert_eq!(counter.get(), 0);

    let err = fail_auth()
        .with_ctx_lazy("retry".to_string(), || AttachmentValue::Unsigned(3))
        .attach_note_lazy(|| "token stale".to_owned())
        .expect_err("must fail");
    assert_eq!(err.to_compact_string(), "auth invalid token [retry=3, token stale]");
}

#[test]
fn result_ext_builds_metadata_and_context() {
    let err = fail_auth()
        .with_ctx("request_id".to_string(), AttachmentValue::Unsigned(77))
        .with_error_code(ErrorCode::from_str_code("AUTH.INVALID_TOKEN"))
        .with_severity(Severity::Warn)
        .with_category("auth".to_string())
        .with_retryable(false)
        .with_stack_trace(StackTrace::new(StackTraceFormat::Raw).with_raw("frame".to_string()))
        .clear_stack_trace()
        .attach_note("incoming token is stale".to_string());
    assert_eq!(err.report_severity(), Some(Severity::Warn));
    assert_eq!(err.report_category(), Some("auth"));
    assert_eq!(err.report_retryable(), Some(false));
    assert_eq!(err.report_error_code().map(|c| c.to_code_string()), Some("AUTH.INVALID_TOKEN".to_string()));
    assert_eq!(err.report_attachments().map(|a| a.len()), Some(1));
    assert!(err.report_metadata().is_some());
    let report = err.report_ref().expect("a report");
    assert!(report.stack_trace.is_none());
    assert_eq!(
        report.to_compact_string(),
        "auth invalid token [code=AUTH.INVALID_TOKEN, severity=warn, category=auth, retryable=false, request_id=77, incoming token is stale]"
    );
}

#[test]
fn result_ext_leaves_success_untouched() {
    let ok: Result<u8, Report<u8>> = Ok(5);
    let ok = ok
        .with_severity(Severity::Error)
        .attach_note("never".to_string())
        .with_category("x".to_string());
    assert!(matches!(ok, Ok(5)));
    assert!(ok.report_ref().is_none());
    assert_eq!(ok.report_severity(), None);
}
