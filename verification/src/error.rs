//! Lexical errors.

use vstd::prelude::*;
use vstd::string::StringExecFns;
use crate::text::push_char;

verus! {

/// Why a scan stopped before the end of the source.
#[derive(Clone, Copy, Debug, PartialEq, Eq)]
pub enum LexError {
    /// A character that begins no token.
    UnexpectedCharacter { ch: char, line: usize },
    /// A string literal that the source never closes; `line` is the line
    /// of its opening quote.
    UnterminatedString { line: usize },
}

/// What a [`LexError`] stands for in contracts.
pub enum LexErrorView {
    UnexpectedCharacter { ch: char, line: nat },
    UnterminatedString { line: nat },
}

impl View for LexError {
    type V = LexErrorView;

    open spec fn view(&self) -> LexErrorView {
        match *self {
            LexError::UnexpectedCharacter { ch, line } => LexErrorView::UnexpectedCharacter {
                ch,
                line: line as nat,
            },
            LexError::UnterminatedString { line } => LexErrorView::UnterminatedString {
                line: line as nat,
            },
        }
    }
}

/// `result` with its error, if it holds one, replaced by the error's view.
pub open spec fn with_error_view<T>(result: Result<T, LexError>) -> Result<T, LexErrorView> {
    match result {
        Ok(value) => Ok(value),
        Err(error) => Err(error@),
    }
}

impl LexErrorView {
    /// The line that the error points at.
    pub open spec fn line(self) -> nat {
        match self {
            LexErrorView::UnexpectedCharacter { line, .. } => line,
            LexErrorView::UnterminatedString { line } => line,
        }
    }

    /// The reason in words.
    pub open spec fn message(self) -> Seq<char> {
        match self {
            LexErrorView::UnexpectedCharacter { ch, .. } => "Unexpected character: "@.push(ch),
            LexErrorView::UnterminatedString { .. } => "Unterminated string."@,
        }
    }
}

impl LexError {
    /// The line that the error points at.
    pub fn line(&self) -> (line: usize)
        ensures
            line == self@.line(),
    {
        match *self {
            LexError::UnexpectedCharacter { line, .. } => line,
            LexError::UnterminatedString { line } => line,
        }
    }

    /// The reason in words, for a diagnostic.
    pub fn message(&self) -> (message: String)
        ensures
            message@ == self@.message(),
    {
        match *self {
            LexError::UnexpectedCharacter { ch, .. } => {
                let mut message = String::from_str("Unexpected character: ");
                push_char(&mut message, ch);
                message
            },
            LexError::UnterminatedString { .. } => String::from_str("Unterminated string."),
        }
    }
}

} // verus!
