//! Lexical front end of the machi scripting language.
//!
//! The crate turns source text into a sequence of tokens, each stamped
//! with its kind, its exact spelling and the line on which it begins, or
//! into the first lexical error of the text.
//!
//! - [`grammar`] says in ghost code what the tokens of a text are;
//! - [`scanner`] holds the scanner, which is proved to find exactly those,
//!   and [`scanner::scan_tokens`], which runs one over a whole text;
//! - [`token`] and [`error`] hold what a scan gives back;
//! - [`chars`] holds the character classes of the language;
//! - [`laws`] holds what follows from the grammar for every text.

pub mod chars;
pub mod error;
pub mod grammar;
pub mod laws;
pub mod scanner;
mod text;
pub mod token;
