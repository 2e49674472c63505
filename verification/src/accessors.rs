//! Reading a report's parts, and setting its metadata and stack trace.

use vstd::prelude::*;
use crate::attachment::{Attachment, ContextMap};
use crate::config::{resolve_option, CauseCollectOptions, GlobalConfig};
use crate::error_code::ErrorCode;
use crate::report::{Report, ReportMetadata, StackFrame, StackTrace};
use crate::severity::Severity;
use crate::source_chain::{same_chain, walk_start, SourceErrorChain, SourceErrorChainEntries};

verus! {

impl ReportMetadata {
    /// Metadata with nothing set.
    pub fn new() -> (r: Self)
        ensures
            r.error_code is None,
            r.severity is None,
            r.category is None,
            r.retryable is None,
    {
        ReportMetadata { error_code: None, severity: None, category: None, retryable: None }
    }

    /// The error code, if set.
    pub fn error_code(&self) -> (r: Option<&ErrorCode>)
        ensures
            r matches Some(c) ==> self.error_code == Some(*c),
            r is None <==> self.error_code is None,
    {
        match &self.error_code {
            Some(c) => Some(c),
            None => None,
        }
    }

    /// The category, if set.
    pub fn category(&self) -> (r: Option<&str>)
        ensures
            r matches Some(c) ==> self.category matches Some(s) && c@ == s@,
            r is None <==> self.category is None,
    {
        match &self.category {
            Some(c) => Some(c.as_str()),
            None => None,
        }
    }

    /// Whether the error is retryable, if set.
    pub fn retryable(&self) -> (r: Option<bool>)
        ensures
            r == self.retryable,
    {
        self.retryable
    }

    /// The severity, if set.
    pub fn severity(&self) -> (r: Option<Severity>)
        ensures
            r == self.severity,
    {
        self.severity
    }

    /// Replaces the error code.
    pub fn set_error_code(self, code: ErrorCode) -> (r: Self)
        ensures
            r == (ReportMetadata { error_code: Some(code), ..self }),
    {
        ReportMetadata { error_code: Some(code), ..self }
    }

    /// Sets the error code only when none is set.
    pub fn with_error_code(self, code: ErrorCode) -> (r: Self)
        ensures
            r == (if self.error_code is None { ReportMetadata { error_code: Some(code), ..self } } else { self }),
    {
        if self.error_code.is_none() { self.set_error_code(code) } else { self }
    }

    /// Sets the error code in place, only when none is set.
    pub fn with_error_code_mut(&mut self, code: ErrorCode)
        ensures
            *final(self) == (if old(self).error_code is None {
                ReportMetadata { error_code: Some(code), ..*old(self) }
            } else {
                *old(self)
            }),
    {
        if self.error_code.is_none() {
            self.error_code = Some(code);
        }
    }

    /// Replaces the category.
    pub fn set_category(self, category: String) -> (r: Self)
        ensures
            r == (ReportMetadata { category: Some(category), ..self }),
    {
        ReportMetadata { category: Some(category), ..self }
    }

    /// Sets the category only when none is set.
    pub fn with_category(self, category: String) -> (r: Self)
        ensures
            r == (if self.category is None { ReportMetadata { category: Some(category), ..self } } else { self }),
    {
        if self.category.is_none() { self.set_category(category) } else { self }
    }

    /// Sets the category in place, only when none is set.
    pub fn with_category_mut(&mut self, category: String)
        ensures
            *final(self) == (if old(self).category is None {
                ReportMetadata { category: Some(category), ..*old(self) }
            } else {
                *old(self)
            }),
    {
        if self.category.is_none() {
            self.category = Some(category);
        }
    }

    /// Replaces the retry flag.
    pub fn set_retryable(self, retryable: bool) -> (r: Self)
        ensures
            r == (ReportMetadata { retryable: Some(retryable), ..self }),
    {
        ReportMetadata { retryable: Some(retryable), ..self }
    }

    /// Sets the retry flag only when none is set.
    pub fn with_retryable(self, retryable: bool) -> (r: Self)
        ensures
            r == (if self.retryable is None { ReportMetadata { retryable: Some(retryable), ..self } } else { self }),
    {
        if self.retryable.is_none() { self.set_retryable(retryable) } else { self }
    }

    /// Sets the retry flag in place, only when none is set.
    pub fn with_retryable_mut(&mut self, retryable: bool)
        ensures
            *final(self) == (if old(self).retryable is None {
                ReportMetadata { retryable: Some(retryable), ..*old(self) }
            } else {
                *old(self)
            }),
    {
        if self.retryable.is_none() {
            self.retryable = Some(retryable);
        }
    }

    /// Replaces the severity.
    pub fn replace_severity(self, severity: Severity) -> (r: Self)
        ensures
            r == (ReportMetadata { severity: Some(severity), ..self }),
    {
        ReportMetadata { severity: Some(severity), ..self }
    }
}

impl StackTrace {
    /// Replaces the frames.
    pub fn set_frames(self, frames: Vec<StackFrame>) -> (r: Self)
        ensures
            r == (StackTrace { frames, ..self }),
    {
        StackTrace { frames, ..self }
    }

    /// Replaces the raw text.
    pub fn set_raw(self, raw: String) -> (r: Self)
        ensures
            r == (StackTrace { raw: Some(raw), ..self }),
    {
        StackTrace { raw: Some(raw), ..self }
    }
}

impl<E> Report<E> {
    /// The metadata.
    pub fn metadata(&self) -> (r: &ReportMetadata)
        ensures
            *r == self.metadata,
    {
        &self.metadata
    }

    /// The error code, if set.
    pub fn error_code(&self) -> (r: Option<&ErrorCode>)
        ensures
            r matches Some(c) ==> self.metadata.error_code == Some(*c),
            r is None <==> self.metadata.error_code is None,
    {
        self.metadata.error_code()
    }

    /// The category, if set.
    pub fn category(&self) -> (r: Option<&str>)
        ensures
            r matches Some(c) ==> self.metadata.category matches Some(s) && c@ == s@,
            r is None <==> self.metadata.category is None,
    {
        self.metadata.category()
    }

    /// Whether the error is retryable, if set.
    pub fn retryable(&self) -> (r: Option<bool>)
        ensures
            r == self.metadata.retryable,
    {
        self.metadata.retryable
    }

    /// Replaces the severity.
    pub fn replace_severity(self, severity: Severity) -> (r: Self)
        ensures
            r == (Report { metadata: ReportMetadata { severity: Some(severity), ..self.metadata }, ..self }),
    {
        let mut s = self;
        s.metadata.severity = Some(severity);
        s
    }

    /// The stack trace, if one was attached.
    pub fn stack_trace(&self) -> (r: Option<&StackTrace>)
        ensures
            r matches Some(t) ==> self.stack_trace == Some(*t),
            r is None <==> self.stack_trace is None,
    {
        match &self.stack_trace {
            Some(t) => Some(t),
            None => None,
        }
    }

    /// Removes the stack trace.
    pub fn clear_stack_trace(self) -> (r: Self)
        ensures
            r == (Report { stack_trace: None, ..self }),
    {
        let mut s = self;
        s.stack_trace = None;
        s
    }

    /// The context entries.
    pub fn context(&self) -> (r: &ContextMap)
        ensures
            *r == self.context,
    {
        &self.context
    }

    /// The notes and payloads, in the order they were attached.
    pub fn attachments(&self) -> (r: &[Attachment])
        ensures
            r@ == self.attachments@,
    {
        self.attachments.as_slice()
    }
}

impl<E> Report<E> {
    /// Walks the diagnostic source errors with the given options, type names
    /// shown as recorded; a report without such a chain walks an empty one.
    pub fn iter_diag_srcs_ext(&self, options: CauseCollectOptions) -> (r: SourceErrorChainEntries)
        ensures
            r.options() == options,
            !r.hides_wrappers(),
            r.model() == walk_start(r.chain()),
            match self.diagnostic_source_errors {
                Some(c) => same_chain(r.chain(), c),
                None => r.chain().nodes@.len() == 0 && r.chain().roots@.len() == 0,
            },
    {
        let chain = match &self.diagnostic_source_errors {
            Some(c) => c.copy(),
            None => SourceErrorChain::new(),
        };
        SourceErrorChainEntries::with_options(chain, options, false)
    }

    /// Walks the diagnostic source errors with the options the report
    /// resolves to under `global`.
    pub fn iter_diag_sources(&self, global: &GlobalConfig) -> (r: SourceErrorChainEntries)
        ensures
            r.options() == (CauseCollectOptions {
                max_depth: resolve_option(self.options.max_depth, global.max_depth).value,
                detect_cycle: resolve_option(self.options.detect_cycle, global.detect_cycle).value,
            }),
            !r.hides_wrappers(),
            r.model() == walk_start(r.chain()),
            match self.diagnostic_source_errors {
                Some(c) => same_chain(r.chain(), c),
                None => r.chain().nodes@.len() == 0 && r.chain().roots@.len() == 0,
            },
    {
        self.iter_diag_srcs_ext(self.options.as_cause_options(global))
    }
}

} // verus!
