use bytelang::lexer::{Lexer, LexerError, LexerErrorType, Token, TokenType};

fn first(source: &str) -> Result<Option<Token>, LexerError> {
    let text = source.to_string();
    let mut lexer = Lexer::new(&text);
    lexer.get_token()
}

fn token(source: &str) -> Token {
    match first(source) {
        Ok(Some(t)) => t,
        other => panic!("expected a token for {:?}, got {:?}", source, other),
    }
}

fn error(source: &str) -> LexerError {
    match first(source) {
        Err(e) => e,
        other => panic!("expected an error for {:?}, got {:?}", source, other),
    }
}

fn all_tokens(source: &str) -> Vec<Token> {
    let text = source.to_string();
    let mut lexer = Lexer::new(&text);
    let mut out = Vec::new();
    loop {
        match lexer.get_token() {
            Ok(Some(t)) => out.push(t),
            Ok(None) => return out,
            Err(e) => panic!("unexpected error {:?}", e),
        }
    }
}

#[test]
fn operators_lex_to_kind_and_length() {
    let cases = vec![
        ("+", TokenType::Plus, 1),
        ("+=", TokenType::PlusEqual, 2),
        ("-", TokenType::Minus, 1),
        ("-=", TokenType::MinusEqual, 2),
        ("*", TokenType::Asterisk, 1),
        ("*=", TokenType::AsteriskEqual, 2),
        ("/", TokenType::Slash, 1),
        ("/=", TokenType::SlashEqual, 2),
        ("=", TokenType::Equal, 1),
        ("==", TokenType::DoubleEqual, 2),
        ("=>", TokenType::Arrow, 2),
        ("!=", TokenType::NotEqual, 2),
        (">", TokenType::Greater, 1),
        (">=", TokenType::GreaterEqual, 2),
        ("<", TokenType::Less, 1),
        ("<=", TokenType::LessEqual, 2),
    ];
    for (source, kind, length) in cases {
        let t = token(source);
        assert_eq!(t.token_type, kind, "{}", source);
        assert_eq!(t.length, length, "{}", source);
        assert_eq!(t.line, 0);
        assert_eq!(t.column, 0);
    }
}

#[test]
fn punctuation_lexes_to_single_tokens() {
    let kinds: Vec<TokenType> = all_tokens("(){},.;").into_iter().map(|t| t.token_type).collect();
    assert_eq!(
        kinds,
        vec![
            TokenType::LeftParenthesis,
            TokenType::RightParenthesis,
            TokenType::LeftBrace,
            TokenType::RightBrace,
            TokenType::Comma,
            TokenType::Dot,
            TokenType::Semicolon,
        ]
    );
}

#[test]
fn keywords_lex_to_their_kinds() {
    let cases = vec![
        ("true", TokenType::Bool(true)),
        ("false", TokenType::Bool(false)),
        ("null", TokenType::Null),
        ("and", TokenType::And),
        ("or", TokenType::Or),
        ("not", TokenType::Not),
        ("if", TokenType::If),
        ("then", TokenType::Then),
        ("else", TokenType::Else),
        ("for", TokenType::For),
        ("in", TokenType::In),
        ("do", TokenType::Do),
        ("loop", TokenType::Loop),
        ("match", TokenType::Match),
        ("let", TokenType::Let),
        ("const", TokenType::Const),
        ("fn", TokenType::Fn),
        ("return", TokenType::Return),
    ];
    for (source, kind) in cases {
        let t = token(source);
        assert_eq!(t.token_type, kind, "{}", source);
        assert_eq!(t.length, source.len(), "{}", source);
    }
}

#[test]
fn other_words_lex_to_identifiers() {
    for source in ["x", "_tmp", "iff", "returns", "Loop", "a1_b2"] {
        let t = token(source);
        assert_eq!(t.token_type, TokenType::Identifier(source.to_string()));
        assert_eq!(t.length, source.len());
    }
}

#[test]
fn numbers_lex_to_int_and_float() {
    let t = token("123");
    assert_eq!(t.token_type, TokenType::Int(123));
    assert_eq!(t.length, 3);
    let f = token("1.5");
    assert_eq!(f.token_type, TokenType::Float("1.5".to_string()));
    assert_eq!(f.length, 3);
    match f.token_type {
        TokenType::Float(text) => assert_eq!(text.parse::<f32>().unwrap(), 1.5),
        _ => unreachable!(),
    }
}

#[test]
fn second_decimal_point_is_an_error_at_that_dot() {
    let e = error("1.2.3");
    assert_eq!(e.error_type, LexerErrorType::MultipleDecimalPoints);
    assert_eq!(e.line, 0);
    assert_eq!(e.column, 3);
    assert_eq!(e.length, 1);
}

#[test]
fn largest_integer_fits_and_the_next_does_not() {
    assert_eq!(token("4294967295").token_type, TokenType::Int(4294967295));
    let e = error("4294967296");
    assert_eq!(e.error_type, LexerErrorType::IntegerTooLarge);
    assert_eq!(e.column, 0);
    assert_eq!(e.length, 10);
}

#[test]
fn string_with_escape_decodes() {
    let t = token("\"a\\nb\"");
    assert_eq!(t.token_type, TokenType::String("a\nb".to_string()));
    assert_eq!(t.length, 6);
    assert_eq!(t.column, 0);
}

#[test]
fn every_string_escape_decodes() {
    let t = token("\"\\t\\r\\\\\\\"\"");
    assert_eq!(t.token_type, TokenType::String("\t\r\\\"".to_string()));
    assert_eq!(t.length, 10);
}

#[test]
fn unclosed_string_is_unterminated() {
    let e = error("\"abc");
    assert_eq!(e.error_type, LexerErrorType::UnterminatedString);
    assert_eq!(e.column, 4);
    assert_eq!(e.length, 1);
}

#[test]
fn newline_in_string_is_unterminated() {
    let e = error("\"ab\ncd\"");
    assert_eq!(e.error_type, LexerErrorType::UnterminatedString);
    assert_eq!(e.line, 0);
    assert_eq!(e.column, 3);
}

#[test]
fn unknown_string_escape_is_reported_at_backslash() {
    let e = error("\"a\\qb\"");
    assert_eq!(e.error_type, LexerErrorType::InvalidEscapeSequence);
    assert_eq!(e.column, 2);
    assert_eq!(e.length, 2);
}

#[test]
fn character_literals() {
    let t = token("'a'");
    assert_eq!(t.token_type, TokenType::Char('a'));
    assert_eq!(t.length, 3);
    let n = token("'\\n'");
    assert_eq!(n.token_type, TokenType::Char('\n'));
    assert_eq!(n.length, 4);
}

#[test]
fn empty_character_literal() {
    let e = error("''");
    assert_eq!(e.error_type, LexerErrorType::EmptyCharacter);
    assert_eq!(e.column, 0);
    assert_eq!(e.length, 2);
}

#[test]
fn unclosed_character_literal() {
    let e = error("'ab");
    assert_eq!(e.error_type, LexerErrorType::UnterminatedCharacter);
    assert_eq!(e.column, 2);
    assert_eq!(e.length, 1);
    assert_eq!(error("'").error_type, LexerErrorType::UnterminatedCharacter);
    assert_eq!(error("'a").error_type, LexerErrorType::UnterminatedCharacter);
    assert_eq!(error("'\n'").error_type, LexerErrorType::UnterminatedCharacter);
}

#[test]
fn unknown_character_escape() {
    let e = error("'\\q'");
    assert_eq!(e.error_type, LexerErrorType::InvalidEscapeSequence);
    assert_eq!(e.column, 1);
    assert_eq!(e.length, 2);
}

#[test]
fn bang_without_equal_is_unexpected() {
    let e = error("!x");
    assert_eq!(e.error_type, LexerErrorType::UnexpectedCharacter('!', Some('=')));
    assert_eq!(e.column, 0);
    assert_eq!(e.length, 1);
}

#[test]
fn unknown_character_is_unexpected() {
    let e = error("  @");
    assert_eq!(e.error_type, LexerErrorType::UnexpectedCharacter('@', None));
    assert_eq!(e.column, 2);
}

#[test]
fn positions_follow_lines_and_columns() {
    let tokens = all_tokens("let x\n  = 10;");
    let places: Vec<(u32, u32, usize)> = tokens.iter().map(|t| (t.line, t.column, t.length)).collect();
    assert_eq!(places, vec![(0, 0, 3), (0, 4, 1), (1, 2, 1), (1, 4, 2), (1, 6, 1)]);
}

#[test]
fn empty_and_blank_sources_end_at_once() {
    assert_eq!(first(""), Ok(None));
    assert_eq!(first(" \t\n "), Ok(None));
}
