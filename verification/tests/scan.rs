use machi::error::LexError;
use machi::scanner::scan_tokens;
use machi::token::{Token, TokenKind};

fn token(kind: TokenKind, lexeme: &str, line: usize) -> Token {
    Token { kind, lexeme: lexeme.to_string(), line }
}

fn kinds(source: &str) -> Vec<TokenKind> {
    scan_tokens(source).unwrap().iter().map(|t| t.kind).collect()
}

#[test]
fn empty_source_is_end_of_file_alone() {
    assert_eq!(scan_tokens(""), Ok(vec![token(TokenKind::EndOfFile, "", 1)]));
}

#[test]
fn blank_source_is_end_of_file_alone() {
    assert_eq!(scan_tokens(" "), Ok(vec![token(TokenKind::EndOfFile, "", 1)]));
    assert_eq!(scan_tokens(" \t\r  "), Ok(vec![token(TokenKind::EndOfFile, "", 1)]));
    assert_eq!(kinds("\n\n \t\n"), vec![TokenKind::EndOfFile]);
}

#[test]
fn end_of_file_has_the_line_of_the_last_character() {
    assert_eq!(scan_tokens("a\nb").unwrap().last().unwrap().line, 2);
    assert_eq!(scan_tokens("a\n").unwrap().last().unwrap().line, 1);
    assert_eq!(scan_tokens("a\n\n").unwrap().last().unwrap().line, 2);
    assert_eq!(scan_tokens("\n").unwrap().last().unwrap().line, 1);
    assert_eq!(scan_tokens("\n ").unwrap().last().unwrap().line, 2);
}

#[test]
fn each_keyword_alone_is_its_own_kind() {
    let table = [
        ("machi", TokenKind::Machi),
        ("sollu", TokenKind::Sollu),
        ("sari", TokenKind::Sari),
        ("ipo", TokenKind::Ipo),
        ("ilana", TokenKind::Ilana),
        ("pannu", TokenKind::Pannu),
        ("podhum", TokenKind::Podhum),
    ];
    for (word, kind) in table {
        assert_eq!(
            scan_tokens(word),
            Ok(vec![token(kind, word, 1), token(TokenKind::EndOfFile, "", 1)])
        );
    }
}

#[test]
fn keywords_match_exactly() {
    for word in ["Machi", "machi_", "mach", "machis", "SARI", "ipo2", "_ipo", "x", "_", "a1_b2"] {
        assert_eq!(
            scan_tokens(word),
            Ok(vec![token(TokenKind::Identifier, word, 1), token(TokenKind::EndOfFile, "", 1)])
        );
    }
}

#[test]
fn equal_equal_is_one_token() {
    assert_eq!(
        scan_tokens("=="),
        Ok(vec![token(TokenKind::EqualEqual, "==", 1), token(TokenKind::EndOfFile, "", 1)])
    );
}

#[test]
fn separated_equals_are_two_tokens() {
    assert_eq!(
        scan_tokens("= ="),
        Ok(vec![
            token(TokenKind::Equal, "=", 1),
            token(TokenKind::Equal, "=", 1),
            token(TokenKind::EndOfFile, "", 1),
        ])
    );
}

#[test]
fn operators_take_a_following_equal() {
    assert_eq!(
        kinds("! != = == > >= < <="),
        vec![
            TokenKind::Bang,
            TokenKind::BangEqual,
            TokenKind::Equal,
            TokenKind::EqualEqual,
            TokenKind::Greater,
            TokenKind::GreaterEqual,
            TokenKind::Less,
            TokenKind::LessEqual,
            TokenKind::EndOfFile,
        ]
    );
    assert_eq!(
        kinds("==="),
        vec![TokenKind::EqualEqual, TokenKind::Equal, TokenKind::EndOfFile]
    );
    assert_eq!(
        kinds("<=>!"),
        vec![TokenKind::LessEqual, TokenKind::Greater, TokenKind::Bang, TokenKind::EndOfFile]
    );
}

#[test]
fn punctuation_is_one_token_each() {
    assert_eq!(
        scan_tokens("(){},.-+;/*"),
        Ok(vec![
            token(TokenKind::LeftParen, "(", 1),
            token(TokenKind::RightParen, ")", 1),
            token(TokenKind::LeftBrace, "{", 1),
            token(TokenKind::RightBrace, "}", 1),
            token(TokenKind::Comma, ",", 1),
            token(TokenKind::Dot, ".", 1),
            token(TokenKind::Minus, "-", 1),
            token(TokenKind::Plus, "+", 1),
            token(TokenKind::Semicolon, ";", 1),
            token(TokenKind::Slash, "/", 1),
            token(TokenKind::Star, "*", 1),
            token(TokenKind::EndOfFile, "", 1),
        ])
    );
}

#[test]
fn slash_is_division_twice() {
    assert_eq!(
        kinds("// x"),
        vec![TokenKind::Slash, TokenKind::Slash, TokenKind::Identifier, TokenKind::EndOfFile]
    );
}

#[test]
fn integer_is_one_number() {
    assert_eq!(
        scan_tokens("123"),
        Ok(vec![token(TokenKind::Number, "123", 1), token(TokenKind::EndOfFile, "", 1)])
    );
}

#[test]
fn fraction_is_one_number() {
    assert_eq!(
        scan_tokens("12.5"),
        Ok(vec![token(TokenKind::Number, "12.5", 1), token(TokenKind::EndOfFile, "", 1)])
    );
}

#[test]
fn trailing_dot_is_not_part_of_a_number() {
    assert_eq!(
        scan_tokens("12."),
        Ok(vec![
            token(TokenKind::Number, "12", 1),
            token(TokenKind::Dot, ".", 1),
            token(TokenKind::EndOfFile, "", 1),
        ])
    );
}

#[test]
fn numbers_take_one_fraction_only() {
    assert_eq!(
        scan_tokens("1.2.3"),
        Ok(vec![
            token(TokenKind::Number, "1.2", 1),
            token(TokenKind::Dot, ".", 1),
            token(TokenKind::Number, "3", 1),
            token(TokenKind::EndOfFile, "", 1),
        ])
    );
    assert_eq!(
        scan_tokens(".5"),
        Ok(vec![
            token(TokenKind::Dot, ".", 1),
            token(TokenKind::Number, "5", 1),
            token(TokenKind::EndOfFile, "", 1),
        ])
    );
    assert_eq!(
        scan_tokens("7.x"),
        Ok(vec![
            token(TokenKind::Number, "7", 1),
            token(TokenKind::Dot, ".", 1),
            token(TokenKind::Identifier, "x", 1),
            token(TokenKind::EndOfFile, "", 1),
        ])
    );
}

#[test]
fn numbers_are_not_range_checked() {
    let digits = "123456789012345678901234567890123456789012345678901234567890";
    assert_eq!(
        scan_tokens(digits),
        Ok(vec![token(TokenKind::Number, digits, 1), token(TokenKind::EndOfFile, "", 1)])
    );
}

#[test]
fn number_ends_where_a_word_begins() {
    assert_eq!(
        scan_tokens("12ab"),
        Ok(vec![
            token(TokenKind::Number, "12", 1),
            token(TokenKind::Identifier, "ab", 1),
            token(TokenKind::EndOfFile, "", 1),
        ])
    );
}

#[test]
fn string_keeps_its_quotes_and_spaces() {
    assert_eq!(
        scan_tokens("\"hello world\""),
        Ok(vec![
            token(TokenKind::String, "\"hello world\"", 1),
            token(TokenKind::EndOfFile, "", 1),
        ])
    );
}

#[test]
fn empty_string_is_a_string() {
    assert_eq!(
        scan_tokens("\"\""),
        Ok(vec![token(TokenKind::String, "\"\"", 1), token(TokenKind::EndOfFile, "", 1)])
    );
}

#[test]
fn string_may_hold_any_character() {
    let source = "\"@ # caf\u{e9} \u{1F600} \t 1.5 machi\"";
    assert_eq!(
        scan_tokens(source),
        Ok(vec![token(TokenKind::String, source, 1), token(TokenKind::EndOfFile, "", 1)])
    );
}

#[test]
fn unterminated_string_is_an_error() {
    assert_eq!(scan_tokens("\"abc"), Err(LexError::UnterminatedString { line: 1 }));
    assert_eq!(scan_tokens("\""), Err(LexError::UnterminatedString { line: 1 }));
}

#[test]
fn unterminated_string_reports_the_line_of_its_opening_quote() {
    assert_eq!(scan_tokens("a\n\n  \"abc\n\n"), Err(LexError::UnterminatedString { line: 3 }));
}

#[test]
fn unexpected_character_is_an_error() {
    assert_eq!(scan_tokens("@"), Err(LexError::UnexpectedCharacter { ch: '@', line: 1 }));
    assert_eq!(scan_tokens("#"), Err(LexError::UnexpectedCharacter { ch: '#', line: 1 }));
    assert_eq!(scan_tokens("?"), Err(LexError::UnexpectedCharacter { ch: '?', line: 1 }));
}

#[test]
fn unexpected_character_reports_its_line() {
    assert_eq!(
        scan_tokens("x = 1;\ny = 2 $ 3;\nz"),
        Err(LexError::UnexpectedCharacter { ch: '$', line: 2 })
    );
}

#[test]
fn characters_beyond_ascii_begin_no_token() {
    assert_eq!(
        scan_tokens("\u{e9}t\u{e9}"),
        Err(LexError::UnexpectedCharacter { ch: '\u{e9}', line: 1 })
    );
    assert_eq!(
        scan_tokens("a\u{3b1}"),
        Err(LexError::UnexpectedCharacter { ch: '\u{3b1}', line: 1 })
    );
}

#[test]
fn control_characters_begin_no_token() {
    assert_eq!(scan_tokens("\u{0}"), Err(LexError::UnexpectedCharacter { ch: '\u{0}', line: 1 }));
    assert_eq!(
        scan_tokens("a \u{c} b"),
        Err(LexError::UnexpectedCharacter { ch: '\u{c}', line: 1 })
    );
}

#[test]
fn first_error_wins() {
    assert_eq!(scan_tokens("@ \"abc"), Err(LexError::UnexpectedCharacter { ch: '@', line: 1 }));
    assert_eq!(scan_tokens("\"abc @"), Err(LexError::UnterminatedString { line: 1 }));
}

#[test]
fn string_over_two_lines_keeps_the_count() {
    assert_eq!(
        scan_tokens("machi x\nsollu \"one\ntwo\" y\nz"),
        Ok(vec![
            token(TokenKind::Machi, "machi", 1),
            token(TokenKind::Identifier, "x", 1),
            token(TokenKind::Sollu, "sollu", 2),
            token(TokenKind::String, "\"one\ntwo\"", 2),
            token(TokenKind::Identifier, "y", 3),
            token(TokenKind::Identifier, "z", 4),
            token(TokenKind::EndOfFile, "", 4),
        ])
    );
}

#[test]
fn tokens_after_a_string_that_ends_line_two_are_on_line_three() {
    let tokens = scan_tokens("a\n\"b\nc\" d").unwrap();
    assert_eq!(tokens[1], token(TokenKind::String, "\"b\nc\"", 2));
    assert_eq!(tokens[2], token(TokenKind::Identifier, "d", 3));
    assert_eq!(tokens[3], token(TokenKind::EndOfFile, "", 3));
}

#[test]
fn string_of_line_feeds_begins_on_its_first_line() {
    assert_eq!(
        scan_tokens("\n\"\n\n\n\"\n+"),
        Ok(vec![
            token(TokenKind::String, "\"\n\n\n\"", 2),
            token(TokenKind::Plus, "+", 6),
            token(TokenKind::EndOfFile, "", 6),
        ])
    );
}

#[test]
fn adjacent_tokens_need_no_blank() {
    assert_eq!(
        scan_tokens("x+1"),
        Ok(vec![
            token(TokenKind::Identifier, "x", 1),
            token(TokenKind::Plus, "+", 1),
            token(TokenKind::Number, "1", 1),
            token(TokenKind::EndOfFile, "", 1),
        ])
    );
    assert_eq!(
        kinds("pannu(a,b){sollu a>=b;}"),
        vec![
            TokenKind::Pannu,
            TokenKind::LeftParen,
            TokenKind::Identifier,
            TokenKind::Comma,
            TokenKind::Identifier,
            TokenKind::RightParen,
            TokenKind::LeftBrace,
            TokenKind::Sollu,
            TokenKind::Identifier,
            TokenKind::GreaterEqual,
            TokenKind::Identifier,
            TokenKind::Semicolon,
            TokenKind::RightBrace,
            TokenKind::EndOfFile,
        ]
    );
}

#[test]
fn carriage_returns_do_not_count_as_lines() {
    assert_eq!(
        scan_tokens("a\r\nb\rc"),
        Ok(vec![
            token(TokenKind::Identifier, "a", 1),
            token(TokenKind::Identifier, "b", 2),
            token(TokenKind::Identifier, "c", 2),
            token(TokenKind::EndOfFile, "", 2),
        ])
    );
}

#[test]
fn scanning_twice_gives_the_same_tokens() {
    let source = "machi x = 12.5;\nsollu \"a\nb\" != x";
    assert_eq!(scan_tokens(source), scan_tokens(source));
    assert_eq!(scan_tokens("\"open"), scan_tokens("\"open"));
    assert_eq!(scan_tokens("1 ~"), scan_tokens("1 ~"));
}

#[test]
fn exactly_one_end_of_file_closes_the_tokens() {
    for source in ["", "x", "1 2 3", "a\n", "\"s\" ( )"] {
        let found = kinds(source);
        assert_eq!(found.last(), Some(&TokenKind::EndOfFile));
        assert_eq!(found.iter().filter(|k| **k == TokenKind::EndOfFile).count(), 1);
    }
}

#[test]
fn numbers_glued_to_operators_are_apart() {
    assert_eq!(
        scan_tokens("1+1"),
        Ok(vec![
            token(TokenKind::Number, "1", 1),
            token(TokenKind::Plus, "+", 1),
            token(TokenKind::Number, "1", 1),
            token(TokenKind::EndOfFile, "", 1),
        ])
    );
}

#[test]
fn bare_equal_before_another_character_is_equal() {
    assert_eq!(
        scan_tokens("a=b"),
        Ok(vec![
            token(TokenKind::Identifier, "a", 1),
            token(TokenKind::Equal, "=", 1),
            token(TokenKind::Identifier, "b", 1),
            token(TokenKind::EndOfFile, "", 1),
        ])
    );
    assert_eq!(
        scan_tokens("=\"=\""),
        Ok(vec![
            token(TokenKind::Equal, "=", 1),
            token(TokenKind::String, "\"=\"", 1),
            token(TokenKind::EndOfFile, "", 1),
        ])
    );
}

#[test]
fn tokens_begin_on_the_line_of_their_first_character() {
    let tokens = scan_tokens("a\n\n  b\n\tc \"d\n\ne\"\nf").unwrap();
    let lines: Vec<usize> = tokens.iter().map(|t| t.line).collect();
    assert_eq!(lines, vec![1, 3, 4, 4, 7, 7]);
}

#[test]
fn adjacent_strings_are_two_tokens() {
    assert_eq!(
        scan_tokens("\"a\"\"b\""),
        Ok(vec![
            token(TokenKind::String, "\"a\"", 1),
            token(TokenKind::String, "\"b\"", 1),
            token(TokenKind::EndOfFile, "", 1),
        ])
    );
}
