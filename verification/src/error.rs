//! The error returned when an evaluation fails: a resolved source span
//! plus a message, rendered as `line:col-line:col: message`.

use crate::source::SourcePos;
use crate::source::SourceSpan;
use crate::source::source_span_text;
use vstd::prelude::*;

verus! {

/// An evaluation failure, carrying the source span it arose at, already
/// resolved to line/column positions, and a human-readable message.
/// Immutable once constructed; equality is structural.
#[derive(Clone, PartialEq, Eq, Debug)]
pub struct Error {
    span: SourceSpan,
    message: String,
}

/// What an error is made of: its two resolved positions and the text of
/// its message.
pub open spec fn error_model(e: Error) -> (SourcePos, SourcePos, Seq<char>) {
    (e.spec_span().start, e.spec_span().end, e.spec_message())
}

/// The rendering of an error, as `span: message`.
pub open spec fn error_text(e: Error) -> Seq<char> {
    source_span_text(e.spec_span()) + ": "@ + e.spec_message()
}

impl Error {
    /// The error's span, as seen by specifications.
    pub closed spec fn spec_span(&self) -> SourceSpan {
        self.span
    }

    /// The error's message, as seen by specifications.
    pub closed spec fn spec_message(&self) -> Seq<char> {
        self.message@
    }

    /// Creates a new error with the given span and message.
    pub fn new(span: SourceSpan, message: &str) -> (e: Error)
        ensures
            e.spec_span() == span,
            e.spec_message() == message@,
    {
        Error { span, message: message.to_owned() }
    }

    /// Returns the span.
    pub fn span(&self) -> (s: SourceSpan)
        ensures
            s == self.spec_span(),
    {
        self.span
    }

    /// Returns the message.
    pub fn message(&self) -> (m: &str)
        ensures
            m@ == self.spec_message(),
    {
        self.message.as_str()
    }

    /// Renders the error as `span: message`.
    pub fn to_string(&self) -> (s: String)
        ensures
            s@ == error_text(*self),
    {
        let mut s = self.span.to_string();
        s.append(": ");
        s.append(self.message.as_str());
        proof {
            assert(s@ =~= error_text(*self));
        }
        s
    }
}

} // verus!
