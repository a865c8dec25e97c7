use vstd::prelude::*;

use crate::text::{push_str, string_from_str};

verus! {

/// The library's error type.
#[derive(Debug, Clone, PartialEq)]
pub enum Error {
    /// MCP protocol, connection or usage errors.
    Other(String),
    /// Format errors for invalid user input.
    Format(String),
    /// Errors that should be rare and are not expected to be handled by the user.
    Internal(String),
}

/// The mathematical value of an [`Error`].
pub enum ErrorView {
    Other(Seq<char>),
    Format(Seq<char>),
    Internal(Seq<char>),
}

impl View for Error {
    type V = ErrorView;

    open spec fn view(&self) -> ErrorView {
        match self {
            Error::Other(m) => ErrorView::Other(m@),
            Error::Format(m) => ErrorView::Format(m@),
            Error::Internal(m) => ErrorView::Internal(m@),
        }
    }
}

/// The text that an error is displayed with.
pub open spec fn error_message(e: ErrorView) -> Seq<char> {
    match e {
        ErrorView::Other(m) => "MCP error: "@ + m,
        ErrorView::Format(m) => "Invalid format: "@ + m,
        ErrorView::Internal(m) => "MCP error: "@ + m,
    }
}

impl Error {
    /// The text this error is displayed with.
    pub fn message(&self) -> (s: String)
        ensures
            s@ == error_message(self@),
    {
        let (prefix, m) = match self {
            Error::Other(m) => ("MCP error: ", m),
            Error::Format(m) => ("Invalid format: ", m),
            Error::Internal(m) => ("MCP error: ", m),
        };
        let mut s = string_from_str(prefix);
        push_str(&mut s, m.as_str());
        proof {
            reveal_strlit("MCP error: ");
            reveal_strlit("Invalid format: ");
        }
        s
    }
}

} // verus!
