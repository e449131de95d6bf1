//! The grammar of lexemes, stated over sequences of characters.
//!
//! Everything here is ghost code. It says of which tokens a source text
//! consists; the scanner is proved to produce exactly those.

use vstd::prelude::*;
use crate::chars::{is_digit, is_letter, CharClass};
use crate::error::LexErrorView;
use crate::token::{TokenKind, TokenView};

verus! {

/// The line on which the character at index `at` lies. The first
/// character lies on line 1; a line feed belongs to the line that it ends,
/// and the character after it opens the next line.
pub open spec fn line_at(src: Seq<char>, at: int) -> nat
    decreases at,
{
    if at <= 0 {
        1
    } else if src[at - 1] == '\n' {
        line_at(src, at - 1) + 1
    } else {
        line_at(src, at - 1)
    }
}

/// The line of the last of the first `upto` characters, and 1 when there
/// is none.
pub open spec fn line_reached(src: Seq<char>, upto: int) -> nat {
    if upto <= 0 {
        1
    } else {
        line_at(src, upto - 1)
    }
}

/// Lines are counted from 1 and never run ahead of the characters:
/// the character at index `at` lies on line `at + 1` at most.
pub proof fn lemma_line_at_bounds(src: Seq<char>, at: int)
    requires
        0 <= at,
    ensures
        1 <= line_at(src, at) <= at + 1,
    decreases at,
{
    if at > 0 {
        lemma_line_at_bounds(src, at - 1);
    }
}

/// Lines never decrease along the source.
pub proof fn lemma_line_at_monotonic(src: Seq<char>, from: int, to: int)
    requires
        from <= to,
    ensures
        line_at(src, from) <= line_at(src, to),
    decreases to - from,
{
    if from < to && 0 < to {
        lemma_line_at_monotonic(src, from, to - 1);
    }
}

/// Where the longest run of characters of `class` that begins at `from`
/// ends: the index of the first character at or after `from` that is not
/// in the class, or the length of the source when all of them are.
pub open spec fn run_end(src: Seq<char>, from: int, class: CharClass) -> int
    decreases src.len() - from,
{
    if 0 <= from < src.len() && class.has(src[from]) {
        run_end(src, from + 1, class)
    } else {
        from
    }
}

/// A run ends at or after its beginning and within the source, holds
/// characters of its class only, and stops at a character outside the
/// class or at the end of the source: it is the longest such run.
pub proof fn lemma_run_end(src: Seq<char>, from: int, class: CharClass)
    requires
        0 <= from <= src.len(),
    ensures
        from <= run_end(src, from, class) <= src.len(),
        forall|i: int| from <= i < run_end(src, from, class) ==> class.has(#[trigger] src[i]),
        run_end(src, from, class) < src.len() ==> !class.has(src[run_end(src, from, class)]),
    decreases src.len() - from,
{
    if from < src.len() && class.has(src[from]) {
        lemma_run_end(src, from + 1, class);
    }
}

/// The kind of the token that `c` is by itself, whatever follows.
pub open spec fn punctuation(c: char) -> Option<TokenKind> {
    match c {
        '(' => Some(TokenKind::LeftParen),
        ')' => Some(TokenKind::RightParen),
        '{' => Some(TokenKind::LeftBrace),
        '}' => Some(TokenKind::RightBrace),
        ',' => Some(TokenKind::Comma),
        '.' => Some(TokenKind::Dot),
        '-' => Some(TokenKind::Minus),
        '+' => Some(TokenKind::Plus),
        ';' => Some(TokenKind::Semicolon),
        '/' => Some(TokenKind::Slash),
        '*' => Some(TokenKind::Star),
        _ => None,
    }
}

/// For a character that is an operator alone and another one together
/// with a following `=`: the two kinds, in this order.
pub open spec fn operator(c: char) -> Option<(TokenKind, TokenKind)> {
    match c {
        '!' => Some((TokenKind::Bang, TokenKind::BangEqual)),
        '=' => Some((TokenKind::Equal, TokenKind::EqualEqual)),
        '>' => Some((TokenKind::Greater, TokenKind::GreaterEqual)),
        '<' => Some((TokenKind::Less, TokenKind::LessEqual)),
        _ => None,
    }
}

/// The table of reserved words.
pub open spec fn keyword(word: Seq<char>) -> Option<TokenKind> {
    if word == "machi"@ {
        Some(TokenKind::Machi)
    } else if word == "sollu"@ {
        Some(TokenKind::Sollu)
    } else if word == "sari"@ {
        Some(TokenKind::Sari)
    } else if word == "ipo"@ {
        Some(TokenKind::Ipo)
    } else if word == "ilana"@ {
        Some(TokenKind::Ilana)
    } else if word == "pannu"@ {
        Some(TokenKind::Pannu)
    } else if word == "podhum"@ {
        Some(TokenKind::Podhum)
    } else {
        None
    }
}

/// The kind of a word: that of the reserved word it spells, else
/// `Identifier`.
pub open spec fn word_kind(word: Seq<char>) -> TokenKind {
    match keyword(word) {
        Some(kind) => kind,
        None => TokenKind::Identifier,
    }
}

/// Where the number literal that begins at `at` ends: after its digits,
/// or, when a `.` and at least one more digit follow them, after those
/// digits too.
pub open spec fn number_end(src: Seq<char>, at: int) -> int {
    let whole = run_end(src, at, CharClass::Digit);
    if whole + 1 < src.len() && src[whole] == '.' && is_digit(src[whole + 1]) {
        run_end(src, whole + 2, CharClass::Digit)
    } else {
        whole
    }
}

/// A token as the grammar finds it in the source.
pub struct Lexeme {
    pub kind: TokenKind,
    /// Index just after the last character of the token.
    pub end: int,
}

/// The lexeme that begins at index `at`, which holds a character that is
/// not blank, or the reason why none begins there.
pub open spec fn lexeme_at(src: Seq<char>, at: int) -> Result<Lexeme, LexErrorView>
    recommends
        0 <= at < src.len(),
{
    let c = src[at];
    if let Some(kind) = punctuation(c) {
        Ok(Lexeme { kind, end: at + 1 })
    } else if let Some((alone, with_equal)) = operator(c) {
        if at + 1 < src.len() && src[at + 1] == '=' {
            Ok(Lexeme { kind: with_equal, end: at + 2 })
        } else {
            Ok(Lexeme { kind: alone, end: at + 1 })
        }
    } else if c == '"' {
        let close = run_end(src, at + 1, CharClass::Quoted);
        if close < src.len() {
            Ok(Lexeme { kind: TokenKind::String, end: close + 1 })
        } else {
            Err(LexErrorView::UnterminatedString { line: line_at(src, at) })
        }
    } else if is_digit(c) {
        Ok(Lexeme { kind: TokenKind::Number, end: number_end(src, at) })
    } else if is_letter(c) {
        let end = run_end(src, at, CharClass::Word);
        Ok(Lexeme { kind: word_kind(src.subrange(at, end)), end })
    } else {
        Err(LexErrorView::UnexpectedCharacter { ch: c, line: line_at(src, at) })
    }
}

/// A token takes at least one character and ends within the source.
pub proof fn lemma_lexeme_end(src: Seq<char>, at: int)
    requires
        0 <= at < src.len(),
    ensures
        lexeme_at(src, at) matches Ok(lexeme) ==> at < lexeme.end <= src.len(),
{
    lemma_run_end(src, at + 1, CharClass::Quoted);
    lemma_run_end(src, at, CharClass::Digit);
    lemma_run_end(src, at, CharClass::Word);
    let whole = run_end(src, at, CharClass::Digit);
    if whole + 2 <= src.len() {
        lemma_run_end(src, whole + 2, CharClass::Digit);
    }
}

/// The token that closes the tokens of `src`.
pub open spec fn end_of_file(src: Seq<char>) -> TokenView {
    TokenView {
        kind: TokenKind::EndOfFile,
        lexeme: Seq::empty(),
        line: line_reached(src, src.len() as int),
    }
}

/// The tokens of the part of `src` that begins at index `from`, or the
/// first error in it.
pub open spec fn tokens_from(src: Seq<char>, from: int) -> Result<Seq<TokenView>, LexErrorView>
    recommends
        0 <= from <= src.len(),
    decreases src.len() - from,
    when 0 <= from
    via tokens_from_terminates
{
    let at = run_end(src, from, CharClass::Blank);
    if at >= src.len() {
        Ok(seq![end_of_file(src)])
    } else {
        match lexeme_at(src, at) {
            Ok(lexeme) => {
                let token = TokenView {
                    kind: lexeme.kind,
                    lexeme: src.subrange(at, lexeme.end),
                    line: line_at(src, at),
                };
                match tokens_from(src, lexeme.end) {
                    Ok(rest) => Ok(seq![token] + rest),
                    Err(error) => Err(error),
                }
            },
            Err(error) => Err(error),
        }
    }
}

#[via_fn]
proof fn tokens_from_terminates(src: Seq<char>, from: int) {
    if from <= src.len() {
        lemma_run_end(src, from, CharClass::Blank);
        let at = run_end(src, from, CharClass::Blank);
        if at < src.len() {
            lemma_lexeme_end(src, at);
        }
    }
}

/// The tokens of `src`, or the first error in it.
pub open spec fn tokenize(src: Seq<char>) -> Result<Seq<TokenView>, LexErrorView> {
    tokens_from(src, 0)
}

} // verus!
