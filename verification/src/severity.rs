//! Report severity, its textual labels, and the severity typestate of a
//! report.

use vstd::prelude::*;
use crate::text::{ascii_lower_seq, str_eq, str_to_string, to_ascii_lower_string};

verus! {

/// How serious a reported problem is.
#[derive(Debug, Clone, Copy, PartialEq, Eq, Structural)]
pub enum Severity {
    Debug,
    Info,
    Warn,
    Error,
    Fatal,
}

/// The label a severity renders as.
pub open spec fn severity_label(s: Severity) -> Seq<char> {
    match s {
        Severity::Debug => "debug"@,
        Severity::Info => "info"@,
        Severity::Warn => "warn"@,
        Severity::Error => "error"@,
        Severity::Fatal => "fatal"@,
    }
}

/// The severity a label names, compared without regard to ASCII case;
/// unknown labels read as `Error`.
pub open spec fn severity_from_label(s: Seq<char>) -> Severity {
    let l = ascii_lower_seq(s);
    if l == "debug"@ {
        Severity::Debug
    } else if l == "info"@ {
        Severity::Info
    } else if l == "warn"@ || l == "warning"@ {
        Severity::Warn
    } else if l == "error"@ {
        Severity::Error
    } else if l == "fatal"@ || l == "critical"@ {
        Severity::Fatal
    } else {
        Severity::Error
    }
}

impl Severity {
    /// The lower-case label of this severity.
    pub fn label(&self) -> (r: &'static str)
        ensures
            r@ == severity_label(*self),
    {
        match self {
            Severity::Debug => "debug",
            Severity::Info => "info",
            Severity::Warn => "warn",
            Severity::Error => "error",
            Severity::Fatal => "fatal",
        }
    }

    /// The label as an owned string.
    pub fn to_label_string(&self) -> (r: String)
        ensures
            r@ == severity_label(*self),
    {
        str_to_string(self.label())
    }

    /// Reads a severity from its label, ignoring case; `warning` and
    /// `critical` are accepted as aliases and anything unknown is `Error`.
    pub fn from_label(s: &str) -> (r: Severity)
        ensures
            r == severity_from_label(s@),
    {
        let lowered = to_ascii_lower_string(s);
        let l = lowered.as_str();
        if str_eq(l, "debug") {
            Severity::Debug
        } else if str_eq(l, "info") {
            Severity::Info
        } else if str_eq(l, "warn") || str_eq(l, "warning") {
            Severity::Warn
        } else if str_eq(l, "error") {
            Severity::Error
        } else if str_eq(l, "fatal") || str_eq(l, "critical") {
            Severity::Fatal
        } else {
            Severity::Error
        }
    }
}

/// Reading back the label of a severity gives the same severity.
pub proof fn lemma_severity_label_roundtrip(s: Severity)
    ensures
        severity_from_label(severity_label(s)) == s,
{
    reveal_strlit("debug");
    reveal_strlit("info");
    reveal_strlit("warn");
    reveal_strlit("warning");
    reveal_strlit("error");
    reveal_strlit("fatal");
    reveal_strlit("critical");
    let l = severity_label(s);
    assert(ascii_lower_seq(l) =~= l);
    assert("debug"@.len() == 5 && "debug"@[0] == 'd');
    assert("info"@.len() == 4 && "info"@[0] == 'i');
    assert("warn"@.len() == 4 && "warn"@[0] == 'w');
    assert("warning"@.len() == 7 && "warning"@[0] == 'w');
    assert("error"@.len() == 5 && "error"@[0] == 'e');
    assert("fatal"@.len() == 5 && "fatal"@[0] == 'f');
    assert("critical"@.len() == 8 && "critical"@[0] == 'c');
}

/// Typestate marker of a report whose severity is not set.
#[derive(Debug, Default, Clone, Copy, PartialEq, Eq, Structural)]
pub struct MissingSeverity;

/// Typestate marker of a report whose severity is set.
#[derive(Debug, Clone, Copy, PartialEq, Eq, Structural)]
pub struct HasSeverity {
    pub severity: Severity,
}

impl HasSeverity {
    /// A present severity.
    pub fn new(severity: Severity) -> (r: Self)
        ensures
            r.severity == severity,
    {
        HasSeverity { severity }
    }

    /// The severity this typestate carries.
    pub fn severity(self) -> (r: Severity)
        ensures
            r == self.severity,
    {
        self.severity
    }
}

/// The severity typestate of a report.
pub trait SeverityState: Copy + Sized {
    /// The severity the state stands for, if any.
    spec fn state_severity(self) -> Option<Severity>;

    /// The severity the state stands for, if any.
    fn severity_opt(self) -> (r: Option<Severity>)
        ensures
            r == self.state_severity(),
    ;
}

impl SeverityState for MissingSeverity {
    open spec fn state_severity(self) -> Option<Severity> {
        None
    }

    fn severity_opt(self) -> (r: Option<Severity>) {
        None
    }
}

impl SeverityState for HasSeverity {
    open spec fn state_severity(self) -> Option<Severity> {
        Some(self.severity)
    }

    fn severity_opt(self) -> (r: Option<Severity>) {
        Some(self.severity)
    }
}

} // verus!
