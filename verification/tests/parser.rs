use script_core::ast::{Expression, Op, Parameter, Statement};
use script_core::grammar::Precedence;
use script_core::lexer::generate;
use script_core::parser::{
    infix_binding_power, make_infix_expression, parse, ParseError, Parser,
};
use script_core::token::{Token, TokenKind};

fn number(text: &str) -> Expression {
    Expression::Number(text.to_owned())
}

fn identifier(name: &str) -> Expression {
    Expression::Identifier(name.to_owned())
}

fn infix(left: Expression, op: Op, right: Expression) -> Expression {
    Expression::Infix(Box::new(left), op, Box::new(right))
}

fn parse_source(source: &str) -> Result<Vec<Statement>, ParseError> {
    parse(generate(source).unwrap())
}

fn expression_of(source: &str) -> Expression {
    let mut program = parse_source(source).unwrap();
    assert_eq!(program.len(), 1);
    match program.remove(0) {
        Statement::Expression { expression } => expression,
        other => panic!("not an expression: {:?}", other),
    }
}

#[test]
fn product_binds_tighter_than_sum() {
    let program = parse_source("let x = 1 + 2 * 3").unwrap();
    assert_eq!(
        program,
        vec![Statement::LetDeclaration {
            name: "x".to_owned(),
            initial: Some(infix(
                number("1"),
                Op::Add,
                infix(number("2"), Op::Multiply, number("3"))
            )),
        }]
    );
}

#[test]
fn prefix_binds_tighter_than_sum() {
    assert_eq!(
        expression_of("-5 + 2"),
        infix(
            Expression::Prefix(Op::Negate, Box::new(number("5"))),
            Op::Add,
            number("2")
        )
    );
}

#[test]
fn operators_of_one_level_group_to_the_left() {
    assert_eq!(
        expression_of("1 - 2 - 3"),
        infix(infix(number("1"), Op::Subtract, number("2")), Op::Subtract, number("3"))
    );
    assert_eq!(
        expression_of("8 / 4 * 2"),
        infix(infix(number("8"), Op::Divide, number("4")), Op::Multiply, number("2"))
    );
    assert_eq!(
        expression_of("1 * 2 + 3"),
        infix(infix(number("1"), Op::Multiply, number("2")), Op::Add, number("3"))
    );
}

#[test]
fn a_parenthesis_after_an_expression_is_a_call() {
    assert_eq!(
        expression_of("println(1, x)"),
        Expression::Call(Box::new(identifier("println")), vec![number("1"), identifier("x")])
    );
    assert_eq!(
        expression_of("f()"),
        Expression::Call(Box::new(identifier("f")), vec![])
    );
    assert_eq!(
        expression_of("f(1)(2)"),
        Expression::Call(
            Box::new(Expression::Call(Box::new(identifier("f")), vec![number("1")])),
            vec![number("2")]
        )
    );
}

#[test]
fn a_call_binds_tighter_than_any_operator() {
    assert_eq!(
        expression_of("-f(1)"),
        Expression::Prefix(
            Op::Negate,
            Box::new(Expression::Call(Box::new(identifier("f")), vec![number("1")]))
        )
    );
    assert_eq!(
        expression_of("1 + f(2) * 3"),
        infix(
            number("1"),
            Op::Add,
            infix(
                Expression::Call(Box::new(identifier("f")), vec![number("2")]),
                Op::Multiply,
                number("3")
            )
        )
    );
}

#[test]
fn literals_are_primary_expressions() {
    assert_eq!(expression_of("'text'"), Expression::String("text".to_owned()));
    assert_eq!(expression_of("true"), Expression::Bool(true));
    assert_eq!(expression_of("false"), Expression::Bool(false));
    assert_eq!(expression_of("1_000.5"), number("1000.5"));
    assert_eq!(
        expression_of("!ready?"),
        Expression::Prefix(Op::Not, Box::new(identifier("ready?")))
    );
    assert_eq!(
        expression_of("- - 1"),
        Expression::Prefix(
            Op::Negate,
            Box::new(Expression::Prefix(Op::Negate, Box::new(number("1"))))
        )
    );
}

#[test]
fn a_let_may_leave_its_variable_unassigned() {
    assert_eq!(
        parse_source("let x x").unwrap(),
        vec![
            Statement::LetDeclaration { name: "x".to_owned(), initial: None },
            Statement::Expression { expression: identifier("x") },
        ]
    );
}

#[test]
fn a_function_declaration_needs_a_name_and_a_closure_has_none() {
    assert_eq!(
        parse_source("fn add(a, b) { a + b }").unwrap(),
        vec![Statement::FunctionDeclaration {
            name: "add".to_owned(),
            params: vec![Parameter { name: "a".to_owned() }, Parameter { name: "b".to_owned() }],
            body: vec![Statement::Expression {
                expression: infix(identifier("a"), Op::Add, identifier("b"))
            }],
        }]
    );
    assert_eq!(
        parse_source("let f = fn (a) { }").unwrap(),
        vec![Statement::LetDeclaration {
            name: "f".to_owned(),
            initial: Some(Expression::Closure(vec![Parameter { name: "a".to_owned() }], vec![])),
        }]
    );
    assert_eq!(
        parse_source("fn (a) { }"),
        Err(ParseError::UnexpectedToken(Token::LeftParen))
    );
    assert_eq!(
        parse_source("let f = fn g() { }"),
        Err(ParseError::UnexpectedToken(Token::Identifier("g".to_owned())))
    );
}

#[test]
fn a_conditional_has_a_block_and_may_have_a_second() {
    assert_eq!(
        parse_source("if ok { f() } else { let y = 2 }").unwrap(),
        vec![Statement::If {
            condition: identifier("ok"),
            consequent: vec![Statement::Expression {
                expression: Expression::Call(Box::new(identifier("f")), vec![])
            }],
            otherwise: Some(vec![Statement::LetDeclaration {
                name: "y".to_owned(),
                initial: Some(number("2")),
            }]),
        }]
    );
    assert_eq!(
        parse_source("if 1 + 2 { }").unwrap(),
        vec![Statement::If {
            condition: infix(number("1"), Op::Add, number("2")),
            consequent: vec![],
            otherwise: None,
        }]
    );
    assert_eq!(
        parse_source("if ok f()"),
        Err(ParseError::UnexpectedToken(Token::Identifier("f".to_owned())))
    );
}

#[test]
fn the_first_unexpected_token_ends_the_parse() {
    assert_eq!(parse_source("let = 1"), Err(ParseError::UnexpectedToken(Token::Assign)));
    assert_eq!(parse_source("let"), Err(ParseError::UnexpectedToken(Token::Eof)));
    assert_eq!(parse_source("1 +"), Err(ParseError::UnexpectedToken(Token::Eof)));
    assert_eq!(parse_source("f(1"), Err(ParseError::UnexpectedToken(Token::Eof)));
    assert_eq!(parse_source("{ }"), Err(ParseError::UnexpectedToken(Token::LeftBrace)));
    assert_eq!(parse_source("1 )"), Err(ParseError::UnexpectedToken(Token::RightParen)));
    assert_eq!(parse_source("while"), Err(ParseError::UnexpectedToken(Token::While)));
    assert_eq!(parse_source("fn f(1) { }"), Err(ParseError::UnexpectedToken(Token::Number("1".to_owned()))));
    assert_eq!(parse_source("fn f() { 1"), Err(ParseError::UnexpectedToken(Token::Eof)));
    assert_eq!(parse_source("x = 1"), Err(ParseError::UnexpectedToken(Token::Assign)));
}

#[test]
fn an_empty_token_sequence_is_an_empty_program() {
    assert_eq!(parse(vec![]), Ok(vec![]));
    assert_eq!(parse(vec![Token::Eof, Token::Let]), Ok(vec![]));
}

#[test]
fn statements_follow_each_other_without_a_separator() {
    assert_eq!(
        parse_source("let a = 2 let b = a + 3 * 4").unwrap(),
        vec![
            Statement::LetDeclaration { name: "a".to_owned(), initial: Some(number("2")) },
            Statement::LetDeclaration {
                name: "b".to_owned(),
                initial: Some(infix(
                    identifier("a"),
                    Op::Add,
                    infix(number("3"), Op::Multiply, number("4"))
                )),
            },
        ]
    );
}

#[test]
fn a_parser_hands_out_statements_one_by_one() {
    let mut parser = Parser::new(generate("let x 1").unwrap());
    assert_eq!(
        parser.next(),
        Ok(Some(Statement::LetDeclaration { name: "x".to_owned(), initial: None }))
    );
    assert_eq!(parser.next(), Ok(Some(Statement::Expression { expression: number("1") })));
    assert_eq!(parser.next(), Ok(None));
    assert_eq!(parser.next(), Ok(None));
    let mut parser = Parser::new(generate("1 2").unwrap());
    assert_eq!(
        parser.parse(),
        Ok(vec![
            Statement::Expression { expression: number("1") },
            Statement::Expression { expression: number("2") },
        ])
    );
}

#[test]
fn binding_powers_order_the_operators() {
    assert_eq!(infix_binding_power(TokenKind::Asterisk), Some((8, 9)));
    assert_eq!(infix_binding_power(TokenKind::Slash), Some((8, 9)));
    assert_eq!(infix_binding_power(TokenKind::Plus), Some((6, 7)));
    assert_eq!(infix_binding_power(TokenKind::Minus), Some((6, 7)));
    assert_eq!(infix_binding_power(TokenKind::Assign), None);
    assert_eq!(infix_binding_power(TokenKind::LeftParen), None);
    assert_eq!(Precedence::token(&Token::Asterisk), Precedence::Product);
    assert_eq!(Precedence::token(&Token::Minus), Precedence::Sum);
    assert_eq!(Precedence::token(&Token::LeftParen), Precedence::Call);
    assert_eq!(Precedence::token(&Token::Bang), Precedence::Lowest);
    assert!(Precedence::Lowest.level() < Precedence::Sum.level());
    assert!(Precedence::Sum.level() < Precedence::Product.level());
    assert!(Precedence::Product.level() < Precedence::Prefix.level());
    assert!(Precedence::Prefix.level() < Precedence::Call.level());
}

#[test]
fn an_infix_expression_is_made_of_its_parts() {
    assert_eq!(
        make_infix_expression(number("1"), TokenKind::Plus, number("2")),
        infix(number("1"), Op::Add, number("2"))
    );
    assert_eq!(
        make_infix_expression(number("1"), TokenKind::Minus, number("2")),
        infix(number("1"), Op::Subtract, number("2"))
    );
    assert_eq!(
        make_infix_expression(number("1"), TokenKind::Asterisk, number("2")),
        infix(number("1"), Op::Multiply, number("2"))
    );
    assert_eq!(
        make_infix_expression(number("1"), TokenKind::Slash, number("2")),
        infix(number("1"), Op::Divide, number("2"))
    );
}

#[test]
fn an_expression_gives_its_text_and_wraps_itself() {
    assert_eq!(identifier("x").string(), "x".to_owned());
    assert_eq!(Expression::String("s".to_owned()).string(), "s".to_owned());
    assert_eq!(number("1").some(), Some(number("1")));
    assert_eq!(number("1").boxed(), Box::new(number("1")));
}
