//! The error part of a report's diagnostic representation: its message,
//! borrowed or owned, and its type name.

use vstd::prelude::*;
use crate::text::str_to_string;

verus! {

/// A diagnostic message: text borrowed from the report, or owned.
#[derive(Debug)]
pub enum DiagnosticIrMessage<'a> {
    Borrowed(&'a str),
    Owned(String),
}

/// The text of a message.
pub open spec fn message_text(m: DiagnosticIrMessage) -> Seq<char> {
    match m {
        DiagnosticIrMessage::Borrowed(s) => s@,
        DiagnosticIrMessage::Owned(s) => s@,
    }
}

impl<'a> DiagnosticIrMessage<'a> {
    /// The message's text as an owned string.
    pub fn to_string_owned(&self) -> (r: String)
        ensures
            r@ == message_text(*self),
    {
        match self {
            DiagnosticIrMessage::Borrowed(v) => str_to_string(v),
            DiagnosticIrMessage::Owned(v) => v.clone(),
        }
    }

    /// Whether two messages have the same text.
    pub fn same_text(&self, other: &DiagnosticIrMessage) -> (r: bool)
        ensures
            r == (message_text(*self) == message_text(*other)),
    {
        let a = self.to_string_owned();
        let b = other.to_string_owned();
        crate::text::str_eq(a.as_str(), b.as_str())
    }
}

/// The error of a diagnostic representation: its message and type name.
#[derive(Debug)]
pub struct DiagnosticIrError<'a> {
    pub message: DiagnosticIrMessage<'a>,
    pub type_label: String,
}

impl<'a> DiagnosticIrError<'a> {
    /// The error of a report whose text is `message` and whose type is
    /// named `type_label`, the message borrowed.
    pub fn new(message: &'a str, type_label: &str) -> (r: Self)
        ensures
            r.message == DiagnosticIrMessage::Borrowed(message),
            r.type_label@ == type_label@,
    {
        DiagnosticIrError { message: DiagnosticIrMessage::Borrowed(message), type_label: str_to_string(type_label) }
    }
}

} // verus!
