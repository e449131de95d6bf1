//! Laws of the grammar, proved from its definitions.

use vstd::prelude::*;
use crate::chars::{is_blank, is_digit, is_letter, CharClass};
use crate::error::{LexError, LexErrorView};
use crate::grammar::{
    end_of_file, keyword, lemma_lexeme_end, lemma_line_at_monotonic, lemma_run_end, lexeme_at,
    line_at, line_reached, operator, punctuation, run_end, tokenize, tokens_from, word_kind,
    Lexeme,
};
use crate::scanner::scan_view;
use crate::token::{token_views, Token, TokenKind, TokenView};

verus! {

/// A text without line feeds lies on line 1.
pub proof fn lemma_one_line(src: Seq<char>, at: int)
    requires
        forall|i: int| 0 <= i < at ==> src[i] != '\n',
    ensures
        line_at(src, at) == 1,
    decreases at,
{
    if at > 0 {
        lemma_one_line(src, at - 1);
    }
}

/// A source that holds blanks only, or nothing at all, has one token:
/// `EndOfFile`.
pub proof fn lemma_blank_source(src: Seq<char>)
    requires
        forall|i: int| 0 <= i < src.len() ==> is_blank(#[trigger] src[i]),
    ensures
        tokenize(src) == Ok::<Seq<TokenView>, LexErrorView>(seq![end_of_file(src)]),
{
    lemma_run_end(src, 0, CharClass::Blank);
}

/// A word that stands alone is one token: that of the reserved word that
/// it spells, and an identifier when it spells none.
pub proof fn lemma_word_alone(word: Seq<char>)
    requires
        word.len() > 0,
        is_letter(word[0]),
        forall|i: int| 0 <= i < word.len() ==> CharClass::Word.has(#[trigger] word[i]),
    ensures
        tokenize(word) == Ok::<Seq<TokenView>, LexErrorView>(
            seq![
                TokenView { kind: word_kind(word), lexeme: word, line: 1 },
                TokenView { kind: TokenKind::EndOfFile, lexeme: Seq::empty(), line: 1 },
            ],
        ),
{
    let end = word.len() as int;
    lemma_run_end(word, 0, CharClass::Word);
    assert(word.subrange(0, end) =~= word);
    lemma_one_line(word, end - 1);
    let first = TokenView { kind: word_kind(word), lexeme: word, line: 1 };
    assert(tokens_from(word, end) == Ok::<Seq<TokenView>, LexErrorView>(seq![end_of_file(word)]));
    assert(seq![first] + seq![end_of_file(word)] =~= seq![first, end_of_file(word)]);
}

/// Every reserved word, standing alone, is one token of its own kind and
/// not an identifier.
pub proof fn lemma_keyword_alone(word: Seq<char>)
    requires
        keyword(word) is Some,
    ensures
        tokenize(word) == Ok::<Seq<TokenView>, LexErrorView>(
            seq![
                TokenView { kind: keyword(word)->0, lexeme: word, line: 1 },
                TokenView { kind: TokenKind::EndOfFile, lexeme: Seq::empty(), line: 1 },
            ],
        ),
        keyword(word)->0 != TokenKind::Identifier,
{
    reveal_strlit("machi");
    reveal_strlit("sollu");
    reveal_strlit("sari");
    reveal_strlit("ipo");
    reveal_strlit("ilana");
    reveal_strlit("pannu");
    reveal_strlit("podhum");
    lemma_word_alone(word);
}

/// A string literal ends at the first quote after the one that opens it,
/// whatever stands between the two, and is an error exactly when no quote
/// follows. The error names the line of the opening quote.
pub proof fn lemma_string_lexeme(src: Seq<char>, at: int)
    requires
        0 <= at < src.len(),
        src[at] == '"',
    ensures
        match lexeme_at(src, at) {
            Ok(lexeme) => {
                &&& lexeme.kind == TokenKind::String
                &&& at + 2 <= lexeme.end <= src.len()
                &&& src[lexeme.end - 1] == '"'
                &&& forall|i: int| at < i < lexeme.end - 1 ==> src[i] != '"'
            },
            Err(error) => {
                &&& error == LexErrorView::UnterminatedString { line: line_at(src, at) }
                &&& forall|i: int| at < i < src.len() ==> src[i] != '"'
            },
        },
{
    lemma_run_end(src, at + 1, CharClass::Quoted);
}

/// A quoted text that stands alone is one string token whose lexeme is
/// the whole text, both quotes included, however many blanks and lines it
/// holds.
pub proof fn lemma_string_alone(text: Seq<char>)
    requires
        text.len() >= 2,
        text[0] == '"',
        text.last() == '"',
        forall|i: int| 0 < i < text.len() - 1 ==> text[i] != '"',
    ensures
        tokenize(text) == Ok::<Seq<TokenView>, LexErrorView>(
            seq![
                TokenView { kind: TokenKind::String, lexeme: text, line: 1 },
                end_of_file(text),
            ],
        ),
{
    let end = text.len() as int;
    lemma_string_lexeme(text, 0);
    assert(text.subrange(0, end) =~= text);
    let first = TokenView { kind: TokenKind::String, lexeme: text, line: 1 };
    assert(tokens_from(text, end) == Ok::<Seq<TokenView>, LexErrorView>(seq![end_of_file(text)]));
    assert(seq![first] + seq![end_of_file(text)] =~= seq![first, end_of_file(text)]);
}

/// Whether the characters of `src` from index `from` up to `upto` are
/// digits, but for the one at index `dot`.
pub open spec fn digits_but(src: Seq<char>, from: int, upto: int, dot: int) -> bool {
    forall|i: int| from <= i < upto && i != dot ==> is_digit(#[trigger] src[i])
}

/// A number literal is a run of digits, or two runs of digits with one
/// `.` between them, and it is as long as it can be: no digit follows
/// it, and a `.` with a digit behind it follows it only when the literal
/// holds a `.` already.
pub proof fn lemma_number_lexeme(src: Seq<char>, at: int)
    requires
        0 <= at < src.len(),
        is_digit(src[at]),
    ensures
        lexeme_at(src, at) matches Ok(lexeme) && {
            &&& lexeme.kind == TokenKind::Number
            &&& at < lexeme.end <= src.len()
            &&& digits_but(src, at, lexeme.end, lexeme.end) || exists|dot: int|
                at < dot < lexeme.end - 1 && src[dot] == '.' && #[trigger] digits_but(
                    src,
                    at,
                    lexeme.end,
                    dot,
                )
            &&& lexeme.end < src.len() ==> !is_digit(src[lexeme.end])
            &&& lexeme.end + 1 < src.len() && src[lexeme.end] == '.' && is_digit(
                src[lexeme.end + 1],
            ) ==> !digits_but(src, at, lexeme.end, lexeme.end)
        },
{
    let whole = run_end(src, at, CharClass::Digit);
    lemma_run_end(src, at, CharClass::Digit);
    if whole + 1 < src.len() && src[whole] == '.' && is_digit(src[whole + 1]) {
        let end = run_end(src, whole + 2, CharClass::Digit);
        lemma_run_end(src, whole + 2, CharClass::Digit);
        assert(digits_but(src, at, end, whole));
    }
}

/// A word is a letter or an underscore and the letters, digits and
/// underscores that follow it, as many as there are. It is a reserved
/// word when it spells one, and an identifier when it spells none.
pub proof fn lemma_word_lexeme(src: Seq<char>, at: int)
    requires
        0 <= at < src.len(),
        is_letter(src[at]),
    ensures
        lexeme_at(src, at) matches Ok(lexeme) && {
            &&& at < lexeme.end <= src.len()
            &&& lexeme.kind == word_kind(src.subrange(at, lexeme.end))
            &&& forall|i: int|
                at <= i < lexeme.end ==> is_letter(#[trigger] src[i]) || is_digit(src[i])
            &&& lexeme.end < src.len() ==> !is_letter(src[lexeme.end]) && !is_digit(
                src[lexeme.end],
            )
        },
{
    lemma_run_end(src, at, CharClass::Word);
}

/// A character begins no token exactly when it is neither punctuation,
/// nor an operator, nor a quote, nor a digit, nor a letter nor an
/// underscore. The error names the character and its line.
pub proof fn lemma_unexpected_character(src: Seq<char>, at: int)
    requires
        0 <= at < src.len(),
    ensures
        lexeme_at(src, at) == Err::<Lexeme, LexErrorView>(
            LexErrorView::UnexpectedCharacter { ch: src[at], line: line_at(src, at) },
        ) <==> punctuation(src[at]) is None && operator(src[at]) is None && src[at] != '"'
            && !is_digit(src[at]) && !is_letter(src[at]),
        lexeme_at(src, at) is Err ==> src[at] == '"' || lexeme_at(src, at) == Err::<
            Lexeme,
            LexErrorView,
        >(LexErrorView::UnexpectedCharacter { ch: src[at], line: line_at(src, at) }),
{
}

/// The line of a character is one more than the number of line feeds
/// before it.
pub proof fn lemma_line_counts_line_feeds(src: Seq<char>, at: int)
    requires
        0 <= at <= src.len(),
    ensures
        line_at(src, at) == 1 + src.take(at).filter(|c: char| c == '\n').len(),
    decreases at,
{
    reveal(Seq::filter);
    if at > 0 {
        lemma_line_counts_line_feeds(src, at - 1);
        assert(src.take(at).drop_last() =~= src.take(at - 1));
    }
}

/// No lexeme is of kind `EndOfFile`.
pub proof fn lemma_lexeme_kind(src: Seq<char>, at: int)
    requires
        0 <= at < src.len(),
    ensures
        lexeme_at(src, at) matches Ok(lexeme) ==> lexeme.kind != TokenKind::EndOfFile,
{
}

/// The tokens of a source end with `EndOfFile`, which stands on the line
/// of the last character of the source, or on line 1 when the source is
/// empty. No token before it is of that kind, and none is empty.
pub proof fn lemma_closed_by_end_of_file(src: Seq<char>, from: int)
    requires
        0 <= from <= src.len(),
    ensures
        tokens_from(src, from) matches Ok(tokens) ==> {
            &&& tokens.len() >= 1
            &&& tokens.last() == end_of_file(src)
            &&& forall|i: int|
                0 <= i < tokens.len() - 1 ==> (#[trigger] tokens[i]).kind != TokenKind::EndOfFile
                    && tokens[i].lexeme.len() > 0
        },
    decreases src.len() - from,
{
    lemma_run_end(src, from, CharClass::Blank);
    let at = run_end(src, from, CharClass::Blank);
    if at < src.len() {
        lemma_lexeme_end(src, at);
        lemma_lexeme_kind(src, at);
        if let Ok(lexeme) = lexeme_at(src, at) {
            lemma_closed_by_end_of_file(src, lexeme.end);
        }
    }
}

/// Tokens come in the order of the source: their lines never decrease,
/// and none lies before the line that the source had reached at `from`.
pub proof fn lemma_lines_in_order(src: Seq<char>, from: int)
    requires
        0 <= from <= src.len(),
    ensures
        tokens_from(src, from) matches Ok(tokens) ==> {
            &&& forall|i: int|
                0 <= i < tokens.len() ==> line_reached(src, from) <= (#[trigger] tokens[i]).line
            &&& forall|i: int, j: int|
                0 <= i <= j < tokens.len() ==> (#[trigger] tokens[i]).line <= (
                #[trigger] tokens[j]).line
        },
    decreases src.len() - from,
{
    lemma_run_end(src, from, CharClass::Blank);
    let at = run_end(src, from, CharClass::Blank);
    if at < src.len() {
        lemma_lexeme_end(src, at);
        lemma_line_at_monotonic(src, from - 1, at);
        if let Ok(lexeme) = lexeme_at(src, at) {
            lemma_lines_in_order(src, lexeme.end);
            lemma_line_at_monotonic(src, at, lexeme.end - 1);
        }
    } else {
        lemma_line_at_monotonic(src, from - 1, src.len() - 1);
    }
}

/// Whether `token` is the token of the lexeme that begins at index `at`
/// of `src`: of its kind, spelled as the source spells it there, and on
/// the line of its first character.
pub open spec fn stands_at(src: Seq<char>, token: TokenView, at: int) -> bool {
    &&& 0 <= at < src.len()
    &&& lexeme_at(src, at) == Ok::<Lexeme, LexErrorView>(
        Lexeme { kind: token.kind, end: at + token.lexeme.len() },
    )
    &&& token.lexeme == src.subrange(at, at + token.lexeme.len())
    &&& token.line == line_at(src, at)
}

/// Whether `token` is the token of a lexeme that begins at or after
/// index `from` of `src`.
pub open spec fn stands_from(src: Seq<char>, token: TokenView, from: int) -> bool {
    exists|at: int| from <= at && #[trigger] stands_at(src, token, at)
}

/// Every token of a scan but the closing one is a lexeme of the source.
pub proof fn lemma_tokens_are_lexemes(src: Seq<char>, from: int)
    requires
        0 <= from <= src.len(),
    ensures
        tokens_from(src, from) matches Ok(tokens) ==> forall|i: int|
            0 <= i < tokens.len() - 1 ==> stands_from(src, #[trigger] tokens[i], from),
    decreases src.len() - from,
{
    lemma_run_end(src, from, CharClass::Blank);
    let at = run_end(src, from, CharClass::Blank);
    if at < src.len() {
        lemma_lexeme_end(src, at);
        if let Ok(lexeme) = lexeme_at(src, at) {
            lemma_tokens_are_lexemes(src, lexeme.end);
            if let Ok(rest) = tokens_from(src, lexeme.end) {
                let tokens = tokens_from(src, from)->Ok_0;
                assert forall|i: int| 0 <= i < tokens.len() - 1 implies stands_from(
                    src,
                    #[trigger] tokens[i],
                    from,
                ) by {
                    if i == 0 {
                        assert(stands_at(src, tokens[0], at));
                    } else {
                        assert(tokens[i] == rest[i - 1]);
                        let there = choose|there: int|
                            lexeme.end <= there && #[trigger] stands_at(src, rest[i - 1], there);
                        assert(stands_at(src, tokens[i], there));
                    }
                }
            }
        }
    }
}

/// An error of a scan is the error of a lexeme of the source: it names a
/// character that stands in the source and the line of that character, or
/// the line of a quote of the source that no quote follows.
pub proof fn lemma_error_names_a_lexeme(src: Seq<char>, from: int)
    requires
        0 <= from <= src.len(),
    ensures
        tokens_from(src, from) matches Err(error) ==> exists|at: int|
            from <= at < src.len() && #[trigger] lexeme_at(src, at) == Err::<Lexeme, LexErrorView>(
                error,
            ),
    decreases src.len() - from,
{
    lemma_run_end(src, from, CharClass::Blank);
    let at = run_end(src, from, CharClass::Blank);
    if at < src.len() {
        lemma_lexeme_end(src, at);
        match lexeme_at(src, at) {
            Ok(lexeme) => {
                lemma_error_names_a_lexeme(src, lexeme.end);
            },
            Err(error) => {
                assert(lexeme_at(src, at) == Err::<Lexeme, LexErrorView>(error));
            },
        }
    }
}

/// A run within a part of the source ends where the run in the whole
/// source ends, or where the part ends if that comes first.
pub proof fn lemma_run_end_in_part(
    src: Seq<char>,
    at: int,
    upto: int,
    from: int,
    class: CharClass,
)
    requires
        0 <= at <= from <= upto <= src.len(),
    ensures
        run_end(src.subrange(at, upto), from - at, class) + at == if run_end(src, from, class)
            <= upto {
            run_end(src, from, class)
        } else {
            upto
        },
    decreases upto - from,
{
    lemma_run_end(src, from, class);
    if from < upto && class.has(src[from]) {
        lemma_run_end_in_part(src, at, upto, from + 1, class);
    }
}

/// Maximal munch: a lexeme is the longest text at its place that is a
/// lexeme. Whatever part of the source holds it whole begins with the
/// same lexeme, so the lexeme alone is a lexeme of the same kind, and no
/// longer text that begins where it begins is one.
pub proof fn lemma_longest_match(src: Seq<char>, at: int, upto: int)
    requires
        0 <= at < src.len(),
        lexeme_at(src, at) matches Ok(lexeme) && lexeme.end <= upto <= src.len(),
    ensures
        lexeme_at(src.subrange(at, upto), 0) == Ok::<Lexeme, LexErrorView>(
            Lexeme { kind: lexeme_at(src, at)->Ok_0.kind, end: lexeme_at(src, at)->Ok_0.end - at },
        ),
{
    let part = src.subrange(at, upto);
    let c = src[at];
    lemma_lexeme_end(src, at);
    if c == '"' {
        lemma_run_end_in_part(src, at, upto, at + 1, CharClass::Quoted);
    } else if is_digit(c) {
        let whole = run_end(src, at, CharClass::Digit);
        lemma_run_end(src, at, CharClass::Digit);
        lemma_run_end_in_part(src, at, upto, at, CharClass::Digit);
        if whole + 1 < src.len() && src[whole] == '.' && is_digit(src[whole + 1]) {
            lemma_run_end(src, whole + 2, CharClass::Digit);
            lemma_run_end_in_part(src, at, upto, whole + 2, CharClass::Digit);
        }
    } else if is_letter(c) {
        let end = run_end(src, at, CharClass::Word);
        lemma_run_end_in_part(src, at, upto, at, CharClass::Word);
        assert(part.subrange(0, end - at) =~= src.subrange(at, end));
    }
}

/// Two scans of one source agree: both fail with the same error, or both
/// give the same tokens, kind by kind, character by character and line
/// by line.
pub proof fn lemma_scan_is_a_function(
    src: Seq<char>,
    first: Result<Vec<Token>, LexError>,
    second: Result<Vec<Token>, LexError>,
)
    requires
        scan_view(first) == tokenize(src),
        scan_view(second) == tokenize(src),
    ensures
        first matches Err(error) ==> second == Err::<Vec<Token>, LexError>(error),
        first matches Ok(tokens) ==> second matches Ok(again) && again@.len() == tokens@.len()
            && forall|i: int|
            0 <= i < tokens@.len() ==> (#[trigger] again@[i]).kind == tokens@[i].kind
                && again@[i].lexeme@ == tokens@[i].lexeme@ && again@[i].line == tokens@[i].line,
{
    if let Ok(tokens) = first {
        let again = second->Ok_0;
        assert(token_views(tokens@).len() == tokens@.len());
        assert forall|i: int| 0 <= i < tokens@.len() implies (#[trigger] again@[i])@
            == tokens@[i]@ by {
            assert(token_views(tokens@)[i] == tokens@[i]@);
        }
    }
}

} // verus!
