use script_core::ast::{Expression, Op, Statement};
use script_core::lexer::generate;
use script_core::parser::parse;
use script_core::roundtrip::{arithmetic_source, is_arithmetic_expression};
use script_core::token::{Token, TokenKind};

fn expression_of(source: &str) -> Expression {
    let mut program = parse(generate(source).unwrap()).unwrap();
    assert_eq!(program.len(), 1);
    match program.remove(0) {
        Statement::Expression { expression } => expression,
        other => panic!("not an expression: {:?}", other),
    }
}

fn round_trip(source: &str) -> String {
    let expression = expression_of(source);
    let written = arithmetic_source(&expression).unwrap();
    assert_eq!(expression_of(&written), expression);
    assert_eq!(arithmetic_source(&expression_of(&written)), Some(written.clone()));
    written
}

#[test]
fn an_arithmetic_expression_survives_the_round_trip() {
    assert_eq!(round_trip("1 + 2 * 3"), "1 + 2 * 3 ");
    assert_eq!(round_trip("1*2+3"), "1 * 2 + 3 ");
    assert_eq!(round_trip("-5 + 2"), "- 5 + 2 ");
    assert_eq!(round_trip("1 - 2 - 3 / 4 / x"), "1 - 2 - 3 / 4 / x ");
    assert_eq!(round_trip("a"), "a ");
    assert_eq!(round_trip("- - !ready? * 1_000.5"), "- - ! ready? * 1000.5 ");
    assert_eq!(round_trip("1 + -2 * -3 - 4"), "1 + - 2 * - 3 - 4 ");
}

#[test]
fn the_source_of_an_expression_spells_its_parts_in_order() {
    let expression = Expression::Infix(
        Box::new(Expression::Number("1".to_owned())),
        Op::Add,
        Box::new(Expression::Prefix(
            Op::Negate,
            Box::new(Expression::Identifier("x".to_owned())),
        )),
    );
    assert_eq!(arithmetic_source(&expression), Some("1 + - x ".to_owned()));
}

#[test]
fn only_arithmetic_expressions_have_an_arithmetic_source() {
    assert!(is_arithmetic_expression(&expression_of("1 + x")));
    assert!(!is_arithmetic_expression(&expression_of("f(1)")));
    assert!(!is_arithmetic_expression(&expression_of("1 + 'a'")));
    assert!(!is_arithmetic_expression(&expression_of("true")));
    assert_eq!(arithmetic_source(&expression_of("1 + f(2)")), None);
    assert_eq!(arithmetic_source(&Expression::Closure(vec![], vec![])), None);
    let modulo = Expression::Infix(
        Box::new(Expression::Number("1".to_owned())),
        Op::Modulo,
        Box::new(Expression::Number("2".to_owned())),
    );
    assert_eq!(arithmetic_source(&modulo), None);
    let odd = Expression::Prefix(Op::Add, Box::new(Expression::Number("1".to_owned())));
    assert_eq!(arithmetic_source(&odd), None);
}

#[test]
fn a_token_is_made_of_its_kind_and_its_literal() {
    assert_eq!(Token::new(TokenKind::Number, "1.5".to_owned()), Token::Number("1.5".to_owned()));
    assert_eq!(Token::new(TokenKind::String, "s".to_owned()), Token::String("s".to_owned()));
    assert_eq!(
        Token::new(TokenKind::Identifier, "x".to_owned()),
        Token::Identifier("x".to_owned())
    );
    assert_eq!(Token::new(TokenKind::Plus, "+".to_owned()), Token::Plus);
    assert_eq!(Token::new(TokenKind::Eof, String::new()), Token::Eof);
    assert_eq!(Token::new(TokenKind::Let, "let".to_owned()).kind(), TokenKind::Let);
    assert_eq!(Token::Number("7".to_owned()).into_text(), "7".to_owned());
    assert_eq!(Token::Comma.into_text(), String::new());
}
