//! Character classes of the language.

use vstd::prelude::*;

verus! {

/// The sets of characters from which runs are consumed.
#[derive(Clone, Copy, Debug, PartialEq, Eq, Structural)]
pub enum CharClass {
    /// Space, tab, carriage return and line feed.
    Blank,
    /// The ASCII decimal digits.
    Digit,
    /// ASCII letters and the underscore.
    Letter,
    /// ASCII letters, ASCII digits and the underscore.
    Word,
    /// Everything but the double quote.
    Quoted,
}

/// The characters between tokens that are skipped.
pub open spec fn is_blank(c: char) -> bool {
    c == ' ' || c == '\t' || c == '\r' || c == '\n'
}

/// The characters of which numbers are made.
pub open spec fn is_digit(c: char) -> bool {
    '0' <= c <= '9'
}

/// The characters with which a word may begin.
pub open spec fn is_letter(c: char) -> bool {
    ('a' <= c <= 'z') || ('A' <= c <= 'Z') || c == '_'
}

impl CharClass {
    /// Whether `c` belongs to the class.
    pub open spec fn has(self, c: char) -> bool {
        match self {
            CharClass::Blank => is_blank(c),
            CharClass::Digit => is_digit(c),
            CharClass::Letter => is_letter(c),
            CharClass::Word => is_letter(c) || is_digit(c),
            CharClass::Quoted => c != '"',
        }
    }

    /// Decides membership of `c` in the class.
    pub fn contains(self, c: char) -> (r: bool)
        ensures
            r == self.has(c),
    {
        match self {
            CharClass::Blank => c == ' ' || c == '\t' || c == '\r' || c == '\n',
            CharClass::Digit => digit(c),
            CharClass::Letter => letter(c),
            CharClass::Word => letter(c) || digit(c),
            CharClass::Quoted => c != '"',
        }
    }
}

fn digit(c: char) -> (r: bool)
    ensures
        r == is_digit(c),
{
    '0' <= c && c <= '9'
}

fn letter(c: char) -> (r: bool)
    ensures
        r == is_letter(c),
{
    ('a' <= c && c <= 'z') || ('A' <= c && c <= 'Z') || c == '_'
}

} // verus!
