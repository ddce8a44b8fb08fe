use script_core::lexer::{generate, LexError, Lexer};
use script_core::token::{Token, TokenKind};

fn number(item: Option<Result<Token, LexError>>) -> f64 {
    match item {
        Some(Ok(Token::Number(text))) => text.parse().unwrap(),
        other => panic!("not a number: {:?}", other),
    }
}

#[test]
fn it_can_recognise_reserved_keywords() {
    let mut lexer = Lexer::new("fn let true false if else while".to_string());
    assert_eq!(lexer.next(), Some(Ok(Token::Fn)));
    assert_eq!(lexer.next(), Some(Ok(Token::Let)));
    assert_eq!(lexer.next(), Some(Ok(Token::True)));
    assert_eq!(lexer.next(), Some(Ok(Token::False)));
    assert_eq!(lexer.next(), Some(Ok(Token::If)));
    assert_eq!(lexer.next(), Some(Ok(Token::Else)));
    assert_eq!(lexer.next(), Some(Ok(Token::While)));
}

#[test]
fn it_can_recognise_symbols() {
    let mut lexer = Lexer::new("( ) { } +-*/=".to_string());

    assert_eq!(lexer.next(), Some(Ok(Token::LeftParen)));
    assert_eq!(lexer.next(), Some(Ok(Token::RightParen)));
    assert_eq!(lexer.next(), Some(Ok(Token::LeftBrace)));
    assert_eq!(lexer.next(), Some(Ok(Token::RightBrace)));
    assert_eq!(lexer.next(), Some(Ok(Token::Plus)));
    assert_eq!(lexer.next(), Some(Ok(Token::Minus)));
    assert_eq!(lexer.next(), Some(Ok(Token::Asterisk)));
    assert_eq!(lexer.next(), Some(Ok(Token::Slash)));
    assert_eq!(lexer.next(), Some(Ok(Token::Assign)));
}

#[test]
fn it_can_recognise_identifiers() {
    let mut lexer = Lexer::new("hello_world HelloWorld hello_world? helloWorld".to_string());

    assert_eq!(lexer.next(), Some(Ok(Token::Identifier("hello_world".to_owned()))));
    assert_eq!(lexer.next(), Some(Ok(Token::Identifier("HelloWorld".to_owned()))));
    assert_eq!(lexer.next(), Some(Ok(Token::Identifier("hello_world?".to_owned()))));
    assert_eq!(lexer.next(), Some(Ok(Token::Identifier("helloWorld".to_owned()))));
}

#[test]
fn it_can_recognise_numbers() {
    let mut lexer = Lexer::new("12345 6789.01".to_string());

    assert_eq!(number(lexer.next()), 12345.0);
    assert_eq!(number(lexer.next()), 6789.01);

    let mut lexer = Lexer::new("12345 6789.01".to_string());
    assert_eq!(lexer.next(), Some(Ok(Token::Number("12345".to_owned()))));
    assert_eq!(lexer.next(), Some(Ok(Token::Number("6789.01".to_owned()))));
    assert_eq!(lexer.next(), None);
}

#[test]
fn it_can_recognise_strings() {
    let mut lexer = Lexer::new(r##""testing" "testing with \"" "testing\n""##.to_string());

    assert_eq!(lexer.next(), Some(Ok(Token::String(r##"testing"##.to_owned()))));
    assert_eq!(lexer.next(), Some(Ok(Token::String(r##"testing with \""##.to_owned()))));
    assert_eq!(lexer.next(), Some(Ok(Token::String(r##"testing\n"##.to_owned()))));
}

#[test]
fn grouping_underscores_are_left_out_of_a_number() {
    let mut lexer = Lexer::new("1_000.5".to_string());
    let item = lexer.next();
    assert_eq!(item, Some(Ok(Token::Number("1000.5".to_owned()))));
    assert_eq!(number(item), 1000.5);
    assert_eq!(lexer.next(), None);
}

#[test]
fn a_grouped_literal_lexes_to_its_digits_without_the_underscores() {
    let cases = [
        ("1_000.5", "1000.5"),
        ("  12_345.6_7+1", "12345.67"),
        ("\t0_0)", "00"),
        ("9.0_1 x", "9.01"),
        ("1_2_3_4,", "1234"),
        ("42", "42"),
    ];
    for (source, text) in cases {
        let mut lexer = Lexer::new(source.to_string());
        let item = lexer.next();
        assert_eq!(item, Some(Ok(Token::Number(text.to_owned()))));
        assert!(!text.contains('_'));
        let parsed: Result<f64, _> = text.parse();
        assert!(parsed.is_ok());
        let literal = source.trim_start();
        let rest: String = literal.chars().skip_while(|c| c.is_ascii_digit() || *c == '_' || *c == '.').collect();
        let mut behind = Lexer::new(rest.clone());
        assert_eq!(lexer.next(), behind.next());
    }
}

#[test]
fn an_underscore_belongs_to_a_number_only_before_a_digit() {
    assert_eq!(
        generate("1_ 2"),
        Ok(vec![
            Token::Number("1".to_owned()),
            Token::Identifier("_".to_owned()),
            Token::Number("2".to_owned()),
        ])
    );
    assert_eq!(generate("1_0_0"), Ok(vec![Token::Number("100".to_owned())]));
    assert_eq!(generate("3.1_4"), Ok(vec![Token::Number("3.14".to_owned())]));
}

#[test]
fn a_point_belongs_to_a_number_only_before_a_digit() {
    assert_eq!(generate("12."), Err(LexError::UnrecognizedCharacter));
    assert_eq!(generate("1.5"), Ok(vec![Token::Number("1.5".to_owned())]));
    let mut lexer = Lexer::new("1.5.2".to_string());
    assert_eq!(lexer.next(), Some(Ok(Token::Number("1.5".to_owned()))));
    assert_eq!(lexer.next(), Some(Err(LexError::UnrecognizedCharacter)));
}

#[test]
fn peek_then_next_yield_the_same_token() {
    let mut lexer = Lexer::new("let answer = 42 'text' ) #".to_string());
    loop {
        let peeked = lexer.peek();
        let again = lexer.peek();
        let taken = lexer.next();
        assert_eq!(peeked, again);
        assert_eq!(peeked, taken);
        match taken {
            Some(Ok(_)) => {}
            _ => break,
        }
    }
    assert_eq!(lexer.peek(), Some(Err(LexError::UnrecognizedCharacter)));
}

#[test]
fn whitespace_is_skipped_before_each_token() {
    assert_eq!(
        generate(" \t\n\x0c let \n x\t"),
        Ok(vec![Token::Let, Token::Identifier("x".to_owned())])
    );
    assert_eq!(generate(""), Ok(vec![]));
    assert_eq!(generate("  \n"), Ok(vec![]));
    assert_eq!(generate("\r"), Err(LexError::UnrecognizedCharacter));
}

#[test]
fn keywords_are_matched_exactly() {
    assert_eq!(
        generate("fn fnx let_ If iff"),
        Ok(vec![
            Token::Fn,
            Token::Identifier("fnx".to_owned()),
            Token::Identifier("let_".to_owned()),
            Token::Identifier("If".to_owned()),
            Token::Identifier("iff".to_owned()),
        ])
    );
}

#[test]
fn every_symbol_has_its_token() {
    assert_eq!(
        generate("(){}+-*/=,!"),
        Ok(vec![
            Token::LeftParen,
            Token::RightParen,
            Token::LeftBrace,
            Token::RightBrace,
            Token::Plus,
            Token::Minus,
            Token::Asterisk,
            Token::Slash,
            Token::Assign,
            Token::Comma,
            Token::Bang,
        ])
    );
}

#[test]
fn strings_take_either_quote_and_keep_escapes() {
    assert_eq!(generate("'it'"), Ok(vec![Token::String("it".to_owned())]));
    assert_eq!(generate("'say \"hi\"'"), Ok(vec![Token::String("say \"hi\"".to_owned())]));
    assert_eq!(generate(r"'a\'b'"), Ok(vec![Token::String(r"a\'b".to_owned())]));
    assert_eq!(generate("''"), Ok(vec![Token::String(String::new())]));
}

#[test]
fn an_unterminated_string_is_an_error() {
    assert_eq!(generate("\"open"), Err(LexError::UnterminatedString));
    assert_eq!(generate("'open\""), Err(LexError::UnterminatedString));
    assert_eq!(generate(r"'open\'"), Err(LexError::UnterminatedString));
    assert_eq!(generate("'open\\"), Err(LexError::UnterminatedString));
    let mut lexer = Lexer::new("x 'open".to_string());
    assert_eq!(lexer.next(), Some(Ok(Token::Identifier("x".to_owned()))));
    assert_eq!(lexer.next(), Some(Err(LexError::UnterminatedString)));
    assert_eq!(lexer.next(), Some(Err(LexError::UnterminatedString)));
}

#[test]
fn an_unknown_character_is_an_error() {
    assert_eq!(generate("let x = 1;"), Err(LexError::UnrecognizedCharacter));
    assert_eq!(generate("a % b"), Err(LexError::UnrecognizedCharacter));
    assert_eq!(generate("é"), Err(LexError::UnrecognizedCharacter));
}

#[test]
fn read_moves_one_character_on_wherever_the_cursor_stands() {
    let mut lexer = Lexer::new("ab c".to_string());
    assert_eq!(lexer.current_char(), 'a');
    lexer.read();
    assert_eq!(lexer.current_char(), 'b');
    assert_eq!(lexer.next(), Some(Ok(Token::Identifier("b".to_owned()))));
    lexer.skip_whitespace();
    assert_eq!(lexer.current_char(), 'c');
    lexer.read();
    assert_eq!(lexer.current_char(), '\0');
    assert_eq!(lexer.peek(), None);
    lexer.read();
    lexer.read();
    assert_eq!(lexer.current_char(), '\0');
    assert_eq!(lexer.peek(), None);
    assert_eq!(lexer.next(), None);
    lexer.skip_whitespace();
    assert_eq!(lexer.next(), None);
}

#[test]
fn behind_the_end_of_an_empty_source_nothing_is_left() {
    let mut lexer = Lexer::new(String::new());
    assert_eq!(lexer.current_char(), '\0');
    lexer.read();
    assert_eq!(lexer.current_char(), '\0');
    assert_eq!(lexer.next(), None);
}

#[test]
fn a_token_knows_its_kind() {
    assert_eq!(Token::Number("1".to_owned()).kind(), TokenKind::Number);
    assert_eq!(Token::Number("1".to_owned()).kind(), Token::Number("2".to_owned()).kind());
    assert_eq!(Token::Identifier("a".to_owned()).kind(), TokenKind::Identifier);
    assert_eq!(Token::String("a".to_owned()).kind(), TokenKind::String);
    assert_eq!(Token::Eof.kind(), TokenKind::Eof);
    assert_ne!(Token::Plus.kind(), Token::Minus.kind());
    assert_eq!(Token::Identifier("a".to_owned()).clone(), Token::Identifier("a".to_owned()));
}
