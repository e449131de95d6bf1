//! The scanner: a cursor over the source that reads one lexeme after
//! another and collects their tokens.

use vstd::prelude::*;
use crate::chars::CharClass;
use crate::error::{with_error_view, LexError, LexErrorView};
use crate::grammar::{
    end_of_file, lemma_lexeme_end, lemma_line_at_bounds, lemma_line_at_monotonic, lemma_run_end,
    lexeme_at, line_at, line_reached, number_end, operator, punctuation, run_end, tokenize,
    tokens_from,
};
use crate::text::{chars_of, push_char};
use crate::token::{token_views, Token, TokenKind, TokenView};

verus! {

/// A scan in progress.
pub struct Scanner {
    source: Vec<char>,
    tokens: Vec<Token>,
    /// Index of the first character of the lexeme being read.
    start: usize,
    /// Index of the next character to consume.
    current: usize,
    /// Line of the character consumed last, 1 before the first.
    line: usize,
}

/// What a [`Scanner`] stands for in contracts.
pub struct ScannerView {
    pub source: Seq<char>,
    pub tokens: Seq<TokenView>,
    pub start: int,
    pub current: int,
    pub line: nat,
}

impl ScannerView {
    /// The cursor lies within the source, the lexeme being read ends at
    /// the cursor, and the line is that of the last character consumed.
    pub open spec fn wf(self) -> bool {
        &&& 0 <= self.start <= self.current <= self.source.len()
        &&& self.line == line_reached(self.source, self.current)
    }

    /// The text between the start of the lexeme and the cursor.
    pub open spec fn lexeme(self) -> Seq<char> {
        self.source.subrange(self.start, self.current)
    }

    /// The token of kind `kind` for the lexeme being read. Its line is
    /// that of its first character; an empty lexeme has the line that the
    /// scanner has reached.
    pub open spec fn token(self, kind: TokenKind) -> TokenView {
        TokenView {
            kind,
            lexeme: self.lexeme(),
            line: if self.start < self.current {
                line_at(self.source, self.start)
            } else {
                self.line
            },
        }
    }

    /// Where the next lexeme begins: at the first character at or after
    /// the cursor that is not blank, or at the end of the source.
    pub open spec fn next_start(self) -> int {
        run_end(self.source, self.current, CharClass::Blank)
    }

    /// What the next lexeme is: a token of some kind, nothing when only
    /// blanks are left, or an error.
    pub open spec fn next_lexeme(self) -> Result<Option<TokenKind>, LexErrorView> {
        let at = self.next_start();
        if at >= self.source.len() {
            Ok(None)
        } else {
            match lexeme_at(self.source, at) {
                Ok(lexeme) => Ok(Some(lexeme.kind)),
                Err(error) => Err(error),
            }
        }
    }

    /// Where the cursor stands once the next lexeme has been read: after
    /// a token, after a character that begins none, and at the end of
    /// the source where a string does not end.
    pub open spec fn next_end(self) -> int {
        let at = self.next_start();
        if at >= self.source.len() {
            at
        } else {
            match lexeme_at(self.source, at) {
                Ok(lexeme) => lexeme.end,
                Err(LexErrorView::UnexpectedCharacter { .. }) => at + 1,
                Err(LexErrorView::UnterminatedString { .. }) => self.source.len() as int,
            }
        }
    }

    /// The scanner with its cursor at `current`, having begun its lexeme
    /// at `start`.
    pub open spec fn moved(self, start: int, current: int) -> ScannerView {
        ScannerView { start, current, line: line_reached(self.source, current), ..self }
    }
}

impl View for Scanner {
    type V = ScannerView;

    closed spec fn view(&self) -> ScannerView {
        ScannerView {
            source: self.source@,
            tokens: token_views(self.tokens@),
            start: self.start as int,
            current: self.current as int,
            line: self.line as nat,
        }
    }
}

impl Scanner {
    /// The invariant that every method keeps.
    pub open spec fn wf(&self) -> bool {
        self@.wf()
    }

    /// A scanner at the beginning of `source`, with no token yet.
    pub fn new(source: &str) -> (scanner: Scanner)
        ensures
            scanner.wf(),
            scanner@ == (ScannerView {
                source: source@,
                tokens: Seq::empty(),
                start: 0,
                current: 0,
                line: 1,
            }),
    {
        let scanner = Scanner {
            source: chars_of(source),
            tokens: Vec::new(),
            start: 0,
            current: 0,
            line: 1,
        };
        assert(token_views(scanner.tokens@) =~= Seq::empty());
        scanner
    }

    /// Whether every character of the source has been consumed.
    pub fn is_at_end(&self) -> (at_end: bool)
        ensures
            at_end == (self@.current >= self@.source.len()),
    {
        self.current >= self.source.len()
    }

    /// Consumes one character.
    fn advance(&mut self) -> (c: char)
        requires
            old(self).wf(),
            old(self)@.current < old(self)@.source.len(),
        ensures
            final(self).wf(),
            final(self)@ == old(self)@.moved(old(self)@.start, old(self)@.current + 1),
            c == old(self)@.source[old(self)@.current],
    {
        let c = self.source[self.current];
        proof {
            lemma_line_at_bounds(self.source@, self.current as int);
        }
        assert(self.source@.len() == self.source.len());
        if self.current > 0 && self.source[self.current - 1] == '\n' {
            self.line = self.line + 1;
        }
        self.current = self.current + 1;
        c
    }

    /// Consumes the longest run of characters of `class` at the cursor.
    fn take_run(&mut self, class: CharClass)
        requires
            old(self).wf(),
        ensures
            final(self).wf(),
            final(self)@ == old(self)@.moved(
                old(self)@.start,
                run_end(old(self)@.source, old(self)@.current, class),
            ),
    {
        while self.current < self.source.len() && class.contains(self.source[self.current])
            invariant
                self.wf(),
                self@ == old(self)@.moved(old(self)@.start, self@.current),
                run_end(self@.source, self@.current, class) == run_end(
                    old(self)@.source,
                    old(self)@.current,
                    class,
                ),
            decreases self.source.len() - self.current,
        {
            self.advance();
        }
    }

    /// Consumes the character at the cursor if it is `=`.
    fn take_equal(&mut self) -> (taken: bool)
        requires
            old(self).wf(),
        ensures
            final(self).wf(),
            taken == (old(self)@.current < old(self)@.source.len() && old(self)@.source[old(
                self,
            )@.current] == '='),
            final(self)@ == old(self)@.moved(
                old(self)@.start,
                if taken {
                    old(self)@.current + 1
                } else {
                    old(self)@.current
                },
            ),
    {
        if self.current < self.source.len() && self.source[self.current] == '=' {
            self.advance();
            true
        } else {
            false
        }
    }

    /// Whether the lexeme being read spells `word`.
    fn lexeme_is(&self, word: &str) -> (same: bool)
        requires
            self.wf(),
        ensures
            same == (self@.lexeme() == word@),
    {
        let mut at = self.start;
        for c in it: word.chars()
            invariant
                it.seq() == word@,
                self.wf(),
                at == self.start + it.index(),
                at <= self.current,
                forall|i: int| 0 <= i < it.index() ==> self.source@[self.start + i] == word@[i],
        {
            if at >= self.current || self.source[at] != c {
                return false;
            }
            at = at + 1;
        }
        assert(self@.lexeme().len() == word@.len() ==> self@.lexeme() =~= word@);
        at == self.current
    }

    /// The kind of the word being read.
    fn word_kind(&self) -> (kind: TokenKind)
        requires
            self.wf(),
        ensures
            kind == crate::grammar::word_kind(self@.lexeme()),
    {
        if self.lexeme_is("machi") {
            TokenKind::Machi
        } else if self.lexeme_is("sollu") {
            TokenKind::Sollu
        } else if self.lexeme_is("sari") {
            TokenKind::Sari
        } else if self.lexeme_is("ipo") {
            TokenKind::Ipo
        } else if self.lexeme_is("ilana") {
            TokenKind::Ilana
        } else if self.lexeme_is("pannu") {
            TokenKind::Pannu
        } else if self.lexeme_is("podhum") {
            TokenKind::Podhum
        } else {
            TokenKind::Identifier
        }
    }

    /// Consumes the rest of a number literal whose first digit has just
    /// been consumed.
    fn take_number(&mut self)
        requires
            old(self).wf(),
            old(self)@.start < old(self)@.current,
            CharClass::Digit.has(old(self)@.source[old(self)@.current - 1]),
        ensures
            final(self).wf(),
            final(self)@ == old(self)@.moved(
                old(self)@.start,
                number_end(old(self)@.source, old(self)@.current - 1),
            ),
    {
        self.take_run(CharClass::Digit);
        if self.source.len() - self.current >= 2 && self.source[self.current] == '.'
            && CharClass::Digit.contains(self.source[self.current + 1]) {
            self.advance();
            self.take_run(CharClass::Digit);
        }
    }

    /// Skips the blanks at the cursor and reads the lexeme after them.
    ///
    /// The lexeme then lies between `start` and `current`; a lexeme read
    /// before and not added is dropped. The answer is the kind of the
    /// token that the lexeme is, `None` when nothing but blanks was left,
    /// or the error that the lexeme is.
    pub fn get_next_lexeme(&mut self) -> (found: Result<Option<TokenKind>, LexError>)
        requires
            old(self).wf(),
        ensures
            final(self).wf(),
            final(self)@ == old(self)@.moved(old(self)@.next_start(), old(self)@.next_end()),
            with_error_view(found) == old(self)@.next_lexeme(),
            old(self)@.start <= final(self)@.start,
            old(self)@.current <= final(self)@.current,
            old(self)@.line <= final(self)@.line,
    {
        proof {
            lemma_scanner_moves_on(self@);
        }
        self.take_run(CharClass::Blank);
        self.start = self.current;
        if self.is_at_end() {
            return Ok(None);
        }
        let c = self.advance();
        let line = self.line;
        if let Some(kind) = punctuation_kind(c) {
            Ok(Some(kind))
        } else if let Some((alone, with_equal)) = operator_kinds(c) {
            if self.take_equal() {
                Ok(Some(with_equal))
            } else {
                Ok(Some(alone))
            }
        } else if c == '"' {
            self.take_run(CharClass::Quoted);
            if self.is_at_end() {
                Err(LexError::UnterminatedString { line })
            } else {
                self.advance();
                Ok(Some(TokenKind::String))
            }
        } else if CharClass::Digit.contains(c) {
            self.take_number();
            Ok(Some(TokenKind::Number))
        } else if CharClass::Letter.contains(c) {
            self.take_run(CharClass::Word);
            Ok(Some(self.word_kind()))
        } else {
            Err(LexError::UnexpectedCharacter { ch: c, line })
        }
    }

    /// Appends the token of kind `kind` for the lexeme that lies between
    /// `start` and `current`.
    pub fn add_token(&mut self, kind: TokenKind)
        requires
            old(self).wf(),
        ensures
            final(self).wf(),
            final(self)@ == (ScannerView {
                tokens: old(self)@.tokens.push(old(self)@.token(kind)),
                ..old(self)@
            }),
    {
        let mut lexeme = String::new();
        // Line feeds in the lexeme before its last character: the scanner
        // has come that many lines since the lexeme began.
        let mut feeds: usize = 0;
        let mut at = self.start;
        while at < self.current
            invariant
                self.wf(),
                self@ == old(self)@,
                self.start <= at <= self.current,
                lexeme@ == self.source@.subrange(self.start as int, at as int),
                feeds <= at - self.start,
                self.start < self.current ==> line_at(self.source@, self.start as int) + feeds
                    == line_at(
                    self.source@,
                    if at < self.current {
                        at as int
                    } else {
                        self.current - 1
                    },
                ),
            decreases self.current - at,
        {
            let c = self.source[at];
            push_char(&mut lexeme, c);
            at = at + 1;
            if c == '\n' && at < self.current {
                feeds = feeds + 1;
            }
        }
        let line = self.line - feeds;
        self.tokens.push(Token { kind, lexeme, line });
        assert(token_views(self.tokens@) == token_views(old(self).tokens@).push(
            old(self)@.token(kind),
        ));
    }

    /// Reads the source from the cursor to its end and hands over the
    /// tokens: those that the scanner held, then those of the rest of the
    /// source, closed by `EndOfFile`. The first error in the rest of the
    /// source ends the scan, and no token is handed over.
    pub fn scan_tokens(self) -> (scanned: Result<Vec<Token>, LexError>)
        requires
            self.wf(),
        ensures
            scan_view(scanned) == followed_by(
                self@.tokens,
                tokens_from(self@.source, self@.current),
            ),
    {
        let mut scanner = self;
        loop
            invariant
                scanner.wf(),
                scanner@.source == self@.source,
                followed_by(scanner@.tokens, tokens_from(scanner@.source, scanner@.current))
                    == followed_by(self@.tokens, tokens_from(self@.source, self@.current)),
            decreases scanner@.source.len() - scanner@.current,
        {
            let ghost here = scanner@;
            proof {
                lemma_run_end(here.source, here.current, CharClass::Blank);
                if here.next_start() < here.source.len() {
                    lemma_lexeme_end(here.source, here.next_start());
                }
            }
            match scanner.get_next_lexeme() {
                Ok(Some(kind)) => {
                    scanner.add_token(kind);
                    proof {
                        let token = here.moved(here.next_start(), here.next_end()).token(kind);
                        let rest = tokens_from(here.source, here.next_end());
                        lemma_followed_by_push(here.tokens, token, rest);
                    }
                },
                Ok(None) => {
                    scanner.add_token(TokenKind::EndOfFile);
                    proof {
                        let last = end_of_file(here.source);
                        assert(scanner@.tokens.last().lexeme =~= last.lexeme);
                        assert(scanner@.tokens =~= here.tokens + seq![last]);
                    }
                    return Ok(scanner.tokens);
                },
                Err(error) => {
                    return Err(error);
                },
            }
        }
    }

    /// The tokens collected so far.
    pub fn tokens(&self) -> (tokens: &Vec<Token>)
        ensures
            token_views(tokens@) == self@.tokens,
    {
        &self.tokens
    }

    /// The line of the character consumed last, and 1 before the first.
    pub fn line(&self) -> (line: usize)
        ensures
            line == self@.line,
    {
        self.line
    }
}

/// Reading a lexeme never moves a scanner back: the next lexeme begins
/// at or after the cursor and ends at or after its beginning, within the
/// source, and the line reached does not decrease.
pub proof fn lemma_scanner_moves_on(scanner: ScannerView)
    requires
        scanner.wf(),
    ensures
        scanner.current <= scanner.next_start() <= scanner.next_end() <= scanner.source.len(),
        scanner.moved(scanner.next_start(), scanner.next_end()).wf(),
        scanner.line <= line_reached(scanner.source, scanner.next_end()),
{
    lemma_run_end(scanner.source, scanner.current, CharClass::Blank);
    if scanner.next_start() < scanner.source.len() {
        lemma_lexeme_end(scanner.source, scanner.next_start());
    }
    lemma_line_at_monotonic(scanner.source, scanner.current - 1, scanner.next_end() - 1);
}

/// `tokens` and then the tokens of `rest`, unless `rest` is an error.
pub open spec fn followed_by(
    tokens: Seq<TokenView>,
    rest: Result<Seq<TokenView>, LexErrorView>,
) -> Result<Seq<TokenView>, LexErrorView> {
    match rest {
        Ok(more) => Ok(tokens + more),
        Err(error) => Err(error),
    }
}

/// What the result of a scan stands for in contracts.
pub open spec fn scan_view(scanned: Result<Vec<Token>, LexError>) -> Result<
    Seq<TokenView>,
    LexErrorView,
> {
    match scanned {
        Ok(tokens) => Ok(token_views(tokens@)),
        Err(error) => Err(error@),
    }
}

/// A token at the end of `tokens` is as good as one at the head of what
/// follows them.
proof fn lemma_followed_by_push(
    tokens: Seq<TokenView>,
    token: TokenView,
    rest: Result<Seq<TokenView>, LexErrorView>,
)
    ensures
        followed_by(tokens.push(token), rest) == followed_by(
            tokens,
            followed_by(seq![token], rest),
        ),
{
    if let Ok(more) = rest {
        assert(tokens.push(token) + more =~= tokens + (seq![token] + more));
    }
}

/// The tokens of `source`, closed by `EndOfFile`, or the first error in
/// it.
pub fn scan_tokens(source: &str) -> (scanned: Result<Vec<Token>, LexError>)
    ensures
        scan_view(scanned) == tokenize(source@),
{
    let scanner = Scanner::new(source);
    scanner.scan_tokens()
}

/// The kind of the token that `c` is by itself.
fn punctuation_kind(c: char) -> (kind: Option<TokenKind>)
    ensures
        kind == punctuation(c),
{
    match c {
        '(' => Some(TokenKind::LeftParen),
        ')' => Some(TokenKind::RightParen),
        '{' => Some(TokenKind::LeftBrace),
        '}' => Some(TokenKind::RightBrace),
        ',' => Some(TokenKind::Comma),
        '.' => Some(TokenKind::Dot),
        '-' => Some(TokenKind::Minus),
        '+' => Some(TokenKind::Plus),
        ';' => Some(TokenKind::Semicolon),
        '/' => Some(TokenKind::Slash),
        '*' => Some(TokenKind::Star),
        _ => None,
    }
}

/// The kinds of the operator that `c` is alone and followed by `=`.
fn operator_kinds(c: char) -> (kinds: Option<(TokenKind, TokenKind)>)
    ensures
        kinds == operator(c),
{
    match c {
        '!' => Some((TokenKind::Bang, TokenKind::BangEqual)),
        '=' => Some((TokenKind::Equal, TokenKind::EqualEqual)),
        '>' => Some((TokenKind::Greater, TokenKind::GreaterEqual)),
        '<' => Some((TokenKind::Less, TokenKind::LessEqual)),
        _ => None,
    }
}

} // verus!
