//! The ways in which a command line can be rejected before anything runs.

use vstd::prelude::*;

verus! {

/// Why a command line was rejected.
#[derive(Clone, Copy, Debug, PartialEq, Eq, Structural)]
pub enum ParseError {
    /// A redirection operator is the last word: the path is missing.
    MissingRedirectTarget,
    /// Nothing is left once the pipe boundaries are taken away.
    EmptyPipeline,
    /// A command without a single word.
    EmptyCommand,
    /// A stage other than the last one redirects its output.
    InteriorRedirect,
}

/// The text that describes an error.
pub open spec fn error_text(error: ParseError) -> Seq<char> {
    match error {
        ParseError::MissingRedirectTarget => "redirect path missing"@,
        ParseError::EmptyPipeline => "empty pipeline"@,
        ParseError::EmptyCommand => "Empty command"@,
        ParseError::InteriorRedirect => "redirect before the last command"@,
    }
}

impl ParseError {
    /// The text that describes this error.
    pub fn message(&self) -> (text: String)
        ensures
            text@ == error_text(*self),
    {
        match self {
            ParseError::MissingRedirectTarget => "redirect path missing".to_owned(),
            ParseError::EmptyPipeline => "empty pipeline".to_owned(),
            ParseError::EmptyCommand => "Empty command".to_owned(),
            ParseError::InteriorRedirect => "redirect before the last command".to_owned(),
        }
    }
}

} // verus!
