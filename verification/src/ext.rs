//! Working on the report inside a `Result`: the builders applied to the
//! error side, a success passing through untouched, and read-only views of
//! the report.

use vstd::prelude::*;
use crate::attachment::{context_lookup, stored_under_key, Attachment, AttachmentValue, ContextValue};
use crate::error_code::ErrorCode;
use crate::report::{Report, ReportMetadata, StackTrace};
use crate::severity::Severity;
use crate::trace::TraceEvent;

verus! {

/// `after` is `before` with `f` applied to its report: a success passes
/// through, and a report becomes one that `rel` relates to it.
pub open spec fn on_report<T, E>(before: Result<T, Report<E>>, after: Result<T, Report<E>>, rel: spec_fn(Report<E>, Report<E>) -> bool) -> bool {
    match before {
        Ok(v) => after == Ok::<T, Report<E>>(v),
        Err(old) => after is Err && rel(old, after->Err_0),
    }
}

/// The report with a context entry stored under `key`.
pub open spec fn ctx_added<E>(old: Report<E>, new: Report<E>, key: String, value: ContextValue) -> bool {
    &&& new == (Report { context: new.context, ..old })
    &&& stored_under_key(old.context.entries(), new.context.entries(), (key, value))
    &&& context_lookup(new.context.entries(), key@) == Some(value)
    &&& forall|k: Seq<char>| k != key@ ==> #[trigger] context_lookup(new.context.entries(), k) == context_lookup(old.context.entries(), k)
}

/// The report with an attachment appended.
pub open spec fn attachment_added<E>(old: Report<E>, new: Report<E>, a: Attachment) -> bool {
    &&& new == (Report { attachments: new.attachments, ..old })
    &&& new.attachments@ == old.attachments@.push(a)
}

/// The report with its metadata replaced by `m`.
pub open spec fn metadata_set<E>(old: Report<E>, new: Report<E>, m: ReportMetadata) -> bool {
    new == (Report { metadata: m, ..old })
}

/// Extending the report inside a `Result`; a success passes through.
pub trait ReportResultExt<T, E>: Sized {
    /// Appends a note to the report.
    fn attach_note(self, message: String) -> Result<T, Report<E>>;

    /// Appends a note whose text is made only when there is a report.
    fn attach_note_lazy<F: FnOnce() -> String>(self, make_message: F) -> Result<T, Report<E>>
        requires
            make_message.requires(()),
    ;

    /// Appends a payload to the report.
    fn attach_payload(self, name: String, value: AttachmentValue, media_type: Option<String>) -> Result<T, Report<E>>;

    /// Adds a context entry to the report.
    fn with_ctx(self, key: String, value: ContextValue) -> Result<T, Report<E>>;

    /// Adds a context entry whose value is made only when there is a report.
    fn with_ctx_lazy<F: FnOnce() -> ContextValue>(self, key: String, make_value: F) -> Result<T, Report<E>>
        requires
            make_value.requires(()),
    ;

    /// Sets the report's error code when none is set.
    fn with_error_code(self, code: ErrorCode) -> Result<T, Report<E>>;

    /// Sets the report's severity when none is set.
    fn with_severity(self, severity: Severity) -> Result<T, Report<E>>;

    /// Sets the report's category when none is set.
    fn with_category(self, category: String) -> Result<T, Report<E>>;

    /// Sets whether the report's error is retryable, when not yet set.
    fn with_retryable(self, retryable: bool) -> Result<T, Report<E>>;

    /// Sets the report's stack trace when none is set.
    fn with_stack_trace(self, stack_trace: StackTrace) -> Result<T, Report<E>>;

    /// Removes the report's stack trace.
    fn clear_stack_trace(self) -> Result<T, Report<E>>;

    /// Appends a trace event to the report.
    fn with_trace_event(self, event: TraceEvent) -> Result<T, Report<E>>;
}

impl<T, E> ReportResultExt<T, E> for Result<T, Report<E>> {
    fn attach_note(self, message: String) -> (r: Result<T, Report<E>>)
        ensures
            on_report(self, r, |o: Report<E>, n: Report<E>| attachment_added(o, n, Attachment::Note { message })),
    {
        match self {
            Ok(v) => Ok(v),
            Err(rep) => Err(rep.attach_note(message)),
        }
    }

    fn attach_note_lazy<F: FnOnce() -> String>(self, make_message: F) -> (r: Result<T, Report<E>>)
        ensures
            on_report(self, r, |o: Report<E>, n: Report<E>| exists|m: String|
                make_message.ensures((), m) && #[trigger] attachment_added(o, n, Attachment::Note { message: m })),
    {
        match self {
            Ok(v) => Ok(v),
            Err(rep) => {
                let message = make_message();
                let n = rep.attach_note(message);
                proof {
                    assert(attachment_added(rep, n, Attachment::Note { message }));
                }
                Err(n)
            },
        }
    }

    fn attach_payload(self, name: String, value: AttachmentValue, media_type: Option<String>) -> (r: Result<T, Report<E>>)
        ensures
            on_report(self, r, |o: Report<E>, n: Report<E>|
                attachment_added(o, n, Attachment::Payload { name, value, media_type })),
    {
        match self {
            Ok(v) => Ok(v),
            Err(rep) => Err(rep.attach_payload(name, value, media_type)),
        }
    }

    fn with_ctx(self, key: String, value: ContextValue) -> (r: Result<T, Report<E>>)
        ensures
            on_report(self, r, |o: Report<E>, n: Report<E>| ctx_added(o, n, key, value)),
    {
        match self {
            Ok(v) => Ok(v),
            Err(rep) => Err(rep.with_ctx(key, value)),
        }
    }

    fn with_ctx_lazy<F: FnOnce() -> ContextValue>(self, key: String, make_value: F) -> (r: Result<T, Report<E>>)
        ensures
            on_report(self, r, |o: Report<E>, n: Report<E>| exists|v: ContextValue|
                make_value.ensures((), v) && #[trigger] ctx_added(o, n, key, v)),
    {
        match self {
            Ok(v) => Ok(v),
            Err(rep) => {
                let value = make_value();
                let n = rep.with_ctx(key, value);
                proof {
                    assert(ctx_added(rep, n, key, value));
                }
                Err(n)
            },
        }
    }

    fn with_error_code(self, code: ErrorCode) -> (r: Result<T, Report<E>>)
        ensures
            on_report(self, r, |o: Report<E>, n: Report<E>| metadata_set(o, n,
                if o.metadata.error_code is None { ReportMetadata { error_code: Some(code), ..o.metadata } } else { o.metadata })),
    {
        match self {
            Ok(v) => Ok(v),
            Err(rep) => Err(rep.with_error_code(code)),
        }
    }

    fn with_severity(self, severity: Severity) -> (r: Result<T, Report<E>>)
        ensures
            on_report(self, r, |o: Report<E>, n: Report<E>| metadata_set(o, n,
                if o.metadata.severity is None { ReportMetadata { severity: Some(severity), ..o.metadata } } else { o.metadata })),
    {
        match self {
            Ok(v) => Ok(v),
            Err(rep) => Err(rep.with_severity(severity)),
        }
    }

    fn with_category(self, category: String) -> (r: Result<T, Report<E>>)
        ensures
            on_report(self, r, |o: Report<E>, n: Report<E>| metadata_set(o, n,
                if o.metadata.category is None { ReportMetadata { category: Some(category), ..o.metadata } } else { o.metadata })),
    {
        match self {
            Ok(v) => Ok(v),
            Err(rep) => Err(rep.with_category(category)),
        }
    }

    fn with_retryable(self, retryable: bool) -> (r: Result<T, Report<E>>)
        ensures
            on_report(self, r, |o: Report<E>, n: Report<E>| metadata_set(o, n,
                if o.metadata.retryable is None { ReportMetadata { retryable: Some(retryable), ..o.metadata } } else { o.metadata })),
    {
        match self {
            Ok(v) => Ok(v),
            Err(rep) => Err(rep.with_retryable(retryable)),
        }
    }

    fn with_stack_trace(self, stack_trace: StackTrace) -> (r: Result<T, Report<E>>)
        ensures
            on_report(self, r, |o: Report<E>, n: Report<E>|
                n == (Report { stack_trace: if o.stack_trace is None { Some(stack_trace) } else { o.stack_trace }, ..o })),
    {
        match self {
            Ok(v) => Ok(v),
            Err(rep) => Err(rep.with_stack_trace(stack_trace)),
        }
    }

    fn clear_stack_trace(self) -> (r: Result<T, Report<E>>)
        ensures
            on_report(self, r, |o: Report<E>, n: Report<E>| n == (Report { stack_trace: None, ..o })),
    {
        match self {
            Ok(v) => Ok(v),
            Err(rep) => Err(rep.clear_stack_trace()),
        }
    }

    fn with_trace_event(self, event: TraceEvent) -> (r: Result<T, Report<E>>)
        ensures
            on_report(self, r, |o: Report<E>, n: Report<E>| {
                &&& n == (Report { trace: n.trace, ..o })
                &&& n.trace.events@ == o.trace.events@.push(event)
                &&& n.trace.context == o.trace.context
            }),
    {
        match self {
            Ok(v) => Ok(v),
            Err(rep) => Err(rep.with_trace_event(event)),
        }
    }
}

/// Reading the report inside a `Result`; a success has none.
pub trait ReportResultInspectExt<T, E> {
    /// The report, if there is one.
    fn report_ref(&self) -> Option<&Report<E>>;

    /// The report's attachments, if there is a report.
    fn report_attachments(&self) -> Option<&[Attachment]>;

    /// The report's metadata, if there is a report.
    fn report_metadata(&self) -> Option<&ReportMetadata>;

    /// The report's error code, if there is a report with one.
    fn report_error_code(&self) -> Option<&ErrorCode>;

    /// The report's severity, if there is a report with one.
    fn report_severity(&self) -> Option<Severity>;

    /// The report's category, if there is a report with one.
    fn report_category(&self) -> Option<&str>;

    /// Whether the report's error is retryable, if there is a report saying so.
    fn report_retryable(&self) -> Option<bool>;
}

impl<T, E> ReportResultInspectExt<T, E> for Result<T, Report<E>> {
    fn report_ref(&self) -> (r: Option<&Report<E>>)
        ensures
            r is Some <==> self is Err,
            r matches Some(rep) ==> *self == Err::<T, Report<E>>(*rep),
    {
        match self {
            Ok(_) => None,
            Err(rep) => Some(rep),
        }
    }

    fn report_attachments(&self) -> (r: Option<&[Attachment]>)
        ensures
            r is Some <==> self is Err,
            r matches Some(a) ==> a@ == self->Err_0.attachments@,
    {
        match self {
            Ok(_) => None,
            Err(rep) => Some(rep.attachments()),
        }
    }

    fn report_metadata(&self) -> (r: Option<&ReportMetadata>)
        ensures
            r is Some <==> self is Err,
            r matches Some(m) ==> *m == self->Err_0.metadata,
    {
        match self {
            Ok(_) => None,
            Err(rep) => Some(rep.metadata()),
        }
    }

    fn report_error_code(&self) -> (r: Option<&ErrorCode>)
        ensures
            r is Some <==> (self is Err && self->Err_0.metadata.error_code is Some),
            r matches Some(c) ==> self->Err_0.metadata.error_code == Some(*c),
    {
        match self {
            Ok(_) => None,
            Err(rep) => rep.error_code(),
        }
    }

    fn report_severity(&self) -> (r: Option<Severity>)
        ensures
            r == (match self {
                Ok(_) => None,
                Err(rep) => rep.metadata.severity,
            }),
    {
        match self {
            Ok(_) => None,
            Err(rep) => rep.severity(),
        }
    }

    fn report_category(&self) -> (r: Option<&str>)
        ensures
            r is Some <==> (self is Err && self->Err_0.metadata.category is Some),
            r matches Some(c) ==> self->Err_0.metadata.category matches Some(s) && c@ == s@,
    {
        match self {
            Ok(_) => None,
            Err(rep) => rep.category(),
        }
    }

    fn report_retryable(&self) -> (r: Option<bool>)
        ensures
            r == (match self {
                Ok(_) => None,
                Err(rep) => rep.metadata.retryable,
            }),
    {
        match self {
            Ok(_) => None,
            Err(rep) => rep.retryable(),
        }
    }
}

} // verus!
