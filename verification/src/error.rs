//! What can go wrong while one line is read, split and dispatched.

use vstd::prelude::*;
use vstd::string::StringExecFns;

verus! {

/// Why a line could not be split into words.
#[derive(Clone, Copy, Debug, PartialEq, Eq, Structural)]
pub enum ParseError {
    /// The line ends inside a quoted region.
    UnmatchedQuote,
    /// The scanner claims to be inside a quoted region but remembers no
    /// opening quote.
    Inconsistent,
}

/// A size that a line may not exceed.
#[derive(Clone, Copy, Debug, PartialEq, Eq, Structural)]
pub enum Limit {
    /// The number of characters of the command name.
    CommandLength,
    /// The number of arguments.
    ArgumentCount,
}

/// Why a line led to no result. None of these ends the session.
#[derive(Clone, Debug, PartialEq, Eq)]
pub enum ShellError {
    /// The line could not be split into words.
    Parse(ParseError),
    /// The command name or the argument list is too long; nothing was run.
    LimitExceeded(Limit),
    /// The directory to change to does not exist or has no usable absolute
    /// name.
    NotFound,
    /// The program could not be started; the text says why.
    Execution(String),
}

impl ShellError {
    /// The text that tells the operator about the error.
    pub open spec fn message_text(self) -> Seq<char> {
        match self {
            ShellError::Parse(_) => "unmatched quotes."@,
            ShellError::LimitExceeded(Limit::CommandLength) => "character size limit exceeded"@,
            ShellError::LimitExceeded(Limit::ArgumentCount) => "arguments size limit exceeded"@,
            ShellError::NotFound => "entity not found"@,
            ShellError::Execution(reason) => reason@,
        }
    }

    /// The text that tells the operator about the error, without a line end.
    pub fn message(&self) -> (r: String)
        ensures
            r@ == self.message_text(),
    {
        match self {
            ShellError::Parse(_) => String::from_str("unmatched quotes."),
            ShellError::LimitExceeded(Limit::CommandLength) => String::from_str(
                "character size limit exceeded",
            ),
            ShellError::LimitExceeded(Limit::ArgumentCount) => String::from_str(
                "arguments size limit exceeded",
            ),
            ShellError::NotFound => String::from_str("entity not found"),
            ShellError::Execution(reason) => reason.clone(),
        }
    }
}

} // verus!
