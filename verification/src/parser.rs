//! The parser: from tokens to a syntax tree, by recursive descent for
//! statements and precedence climbing for expressions.

use crate::ast::{
    expression_models, parameter_names, statement_models, Block, Expression, ExpressionModel,
    Identifier, Op, Parameter, Program, Statement, StatementModel,
};
use crate::grammar::{
    expect, expect_name, infix_operator, kind_at, parse_arguments, parse_block, parse_block_rest,
    parse_block_advances, parse_call, parse_expression, parse_expression_advances,
    parse_function, parse_function_advances, parse_if, parse_infix, parse_let, parse_parameters,
    parse_prefix, parse_prefix_advances, parse_program,
    parse_program_rest, parse_rest, parse_statement, parse_statement_advances, precedence_of,
    token_at, Parsed, Precedence,
};
use crate::token::{lexemes, Lexeme, Token, TokenKind};
use vstd::prelude::*;

verus! {

/// Why a token sequence is no program.
#[derive(Debug, PartialEq)]
pub enum ParseError {
    /// The token that stands where another was expected.
    UnexpectedToken(Token),
}

impl View for ParseError {
    type V = Lexeme;

    open spec fn view(&self) -> Lexeme {
        match self {
            ParseError::UnexpectedToken(token) => token@,
        }
    }
}

/// The left and right binding powers of a binary operator, for a token kind
/// that is one. The right power is the greater, so operators of one level
/// group to the left.
pub open spec fn binding_power(kind: TokenKind) -> Option<(u8, u8)> {
    match kind {
        TokenKind::Asterisk | TokenKind::Slash => Some((8u8, 9u8)),
        TokenKind::Plus | TokenKind::Minus => Some((6u8, 7u8)),
        _ => None,
    }
}

/// The binding powers of the binary operator that a token of the given kind
/// stands for.
pub fn infix_binding_power(kind: TokenKind) -> (power: Option<(u8, u8)>)
    ensures
        power == binding_power(kind),
{
    match kind {
        TokenKind::Asterisk | TokenKind::Slash => Some((8, 9)),
        TokenKind::Plus | TokenKind::Minus => Some((6, 7)),
        _ => None,
    }
}

/// The binding powers say what the precedence levels say: exactly the binary
/// operators have powers, the left power is below the right one, and one
/// operator's left power is below another's exactly when its level is.
pub proof fn binding_power_agrees_with_precedence(first: TokenKind, second: TokenKind)
    ensures
        binding_power(first) is Some <==> infix_operator(first) is Some,
        binding_power(first) matches Some((left, right)) ==> left < right,
        binding_power(first) matches Some((left, _)) ==> (binding_power(second) matches Some(
            (other, _),
        ) ==> (left < other <==> precedence_of(first).rank() < precedence_of(second).rank())),
{
}

/// The binary operator that a token of the given kind stands for, if any.
pub fn infix_operator_of(kind: TokenKind) -> (op: Option<Op>)
    ensures
        op == infix_operator(kind),
{
    match kind {
        TokenKind::Plus => Some(Op::Add),
        TokenKind::Minus => Some(Op::Subtract),
        TokenKind::Asterisk => Some(Op::Multiply),
        TokenKind::Slash => Some(Op::Divide),
        _ => None,
    }
}

/// The infix expression of two operands and the operator that a token of the
/// given kind stands for.
pub fn make_infix_expression(lhs: Expression, operator: TokenKind, rhs: Expression) -> (folded:
    Expression)
    requires
        infix_operator(operator) is Some,
    ensures
        folded == Expression::Infix(Box::new(lhs), infix_operator(operator)->0, Box::new(rhs)),
        folded@ == ExpressionModel::Infix(
            Box::new(lhs@),
            infix_operator(operator)->0,
            Box::new(rhs@),
        ),
{
    let lhs = Box::new(lhs);
    let rhs = Box::new(rhs);
    match operator {
        TokenKind::Plus => Expression::Infix(lhs, Op::Add, rhs),
        TokenKind::Asterisk => Expression::Infix(lhs, Op::Multiply, rhs),
        TokenKind::Minus => Expression::Infix(lhs, Op::Subtract, rhs),
        _ => Expression::Infix(lhs, Op::Divide, rhs),
    }
}

/// Whether `result` is what the grammar's `parsed` asks for: on acceptance
/// a value with the accepted model, and the position `end`; on rejection the
/// error that holds the unexpected token.
pub open spec fn parsed_as<T, M>(
    result: Result<T, ParseError>,
    parsed: Parsed<M>,
    end: int,
    model: spec_fn(T) -> M,
) -> bool {
    match parsed {
        Parsed::Accepted { value, next } => result matches Ok(tree) && model(tree) == value && end
            == next,
        Parsed::Rejected { unexpected } => result matches Err(error) && error@ == unexpected,
    }
}

/// A parser over a token sequence. It keeps the token at its position as
/// `current` and the one behind it as `peek`.
pub struct Parser {
    tokens: Vec<Token>,
    position: usize,
    current: Token,
    peek: Token,
}

impl Parser {
    /// The token sequence that this parser reads.
    pub closed spec fn input(&self) -> Seq<Lexeme> {
        lexemes(self.tokens@)
    }

    /// The number of tokens already consumed.
    pub closed spec fn position(&self) -> int {
        self.position as int
    }

    /// The parser's lookahead agrees with its position.
    pub closed spec fn well_formed(&self) -> bool {
        &&& self.position <= self.tokens.len()
        &&& self.current@ == token_at(self.input(), self.position as int)
        &&& self.peek@ == token_at(self.input(), self.position + 1)
    }

    /// A copy of the token at `index`; behind the last token, the end of
    /// input.
    fn token_or_eof(tokens: &Vec<Token>, index: usize) -> (token: Token)
        ensures
            token@ == token_at(lexemes(tokens@), index as int),
    {
        if index < tokens.len() {
            tokens[index].clone()
        } else {
            Token::Eof
        }
    }

    /// A parser at the start of `tokens`, with its lookahead filled.
    pub fn new(tokens: Vec<Token>) -> (parser: Parser)
        ensures
            parser.well_formed(),
            parser.input() == lexemes(tokens@),
            parser.position() == 0,
    {
        let current = Parser::token_or_eof(&tokens, 0);
        let peek = Parser::token_or_eof(&tokens, 1);
        Parser { tokens, position: 0, current, peek }
    }

    /// Consumes the current token; at the end of the input nothing changes.
    fn read(&mut self)
        requires
            old(self).well_formed(),
        ensures
            final(self).well_formed(),
            final(self).input() == old(self).input(),
            final(self).position() == if old(self).position() < old(self).input().len() {
                old(self).position() + 1
            } else {
                old(self).position()
            },
    {
        if self.position < self.tokens.len() {
            self.position = self.position + 1;
            self.current = self.peek.clone();
            self.peek = if self.position < self.tokens.len() {
                Parser::token_or_eof(&self.tokens, self.position + 1)
            } else {
                Token::Eof
            };
        }
    }

    /// Whether the current token is of the given kind, whatever it carries.
    fn current_is(&self, kind: TokenKind) -> (same: bool)
        requires
            self.well_formed(),
        ensures
            same == (kind_at(self.input(), self.position()) == kind),
    {
        self.current.kind() == kind
    }

    /// The current token if it is of the given kind, else the error that
    /// holds it.
    fn expect_token(&self, kind: TokenKind) -> (result: Result<Token, ParseError>)
        requires
            self.well_formed(),
        ensures
            parsed_as(
                result,
                expect(self.input(), self.position(), kind),
                self.position() + 1,
                |token: Token| token@,
            ),
    {
        if self.current_is(kind) {
            Ok(self.current.clone())
        } else {
            Err(ParseError::UnexpectedToken(self.current.clone()))
        }
    }

    /// Consumes the current token if it is of the given kind, which is not
    /// the end of input, and returns it; else returns the error that holds it.
    fn expect_token_and_read(&mut self, kind: TokenKind) -> (result: Result<Token, ParseError>)
        requires
            old(self).well_formed(),
            kind != TokenKind::Eof,
        ensures
            final(self).well_formed(),
            final(self).input() == old(self).input(),
            parsed_as(
                result,
                expect(old(self).input(), old(self).position(), kind),
                final(self).position(),
                |token: Token| token@,
            ),
    {
        let token = self.expect_token(kind)?;
        self.read();
        Ok(token)
    }

    /// Consumes the current token if it is an identifier and returns its
    /// name; else returns the error that holds the token.
    fn expect_identifier_and_read(&mut self) -> (result: Result<Identifier, ParseError>)
        requires
            old(self).well_formed(),
        ensures
            final(self).well_formed(),
            final(self).input() == old(self).input(),
            parsed_as(
                result,
                expect_name(old(self).input(), old(self).position()),
                final(self).position(),
                |name: Identifier| name@,
            ),
    {
        let token = self.expect_token_and_read(TokenKind::Identifier)?;
        Ok(token.into_text())
    }

    /// Parses the statement at the current token, which its kind decides.
    fn parse_statement(&mut self) -> (result: Result<Statement, ParseError>)
        requires
            old(self).well_formed(),
        ensures
            final(self).well_formed(),
            final(self).input() == old(self).input(),
            parsed_as(
                result,
                parse_statement(old(self).input(), old(self).position()),
                final(self).position(),
                |statement: Statement| statement@,
            ),
        decreases old(self).input().len() - old(self).position(), 3int,
    {
        match self.current.kind() {
            TokenKind::Fn => self.parse_fn(true),
            TokenKind::Let => self.parse_let(),
            TokenKind::If => self.parse_if(),
            _ => {
                let expression = self.parse_expression(Precedence::Lowest)?;
                Ok(Statement::Expression { expression })
            },
        }
    }

    /// Parses the expression at the current token, with the operators that
    /// bind more tightly than `precedence`.
    #[verifier::loop_isolation(false)]
    fn parse_expression(&mut self, precedence: Precedence) -> (result: Result<
        Expression,
        ParseError,
    >)
        requires
            old(self).well_formed(),
        ensures
            final(self).well_formed(),
            final(self).input() == old(self).input(),
            parsed_as(
                result,
                parse_expression(old(self).input(), old(self).position(), precedence),
                final(self).position(),
                |expression: Expression| expression@,
            ),
        decreases old(self).input().len() - old(self).position(), 2int,
    {
        let ghost tokens = self.input();
        let ghost start = self.position();
        proof {
            parse_prefix_advances(tokens, start);
        }
        let mut left = self.parse_prefix()?;
        loop
            invariant
                self.well_formed(),
                self.input() == tokens,
                start < self.position() <= tokens.len(),
                parse_rest(tokens, self.position(), left@, precedence) == parse_expression(
                    tokens,
                    start,
                    precedence,
                ),
            decreases tokens.len() - self.position(),
        {
            let ghost here = self.position();
            if self.current_is(TokenKind::Eof) || Precedence::token(&self.current).level()
                <= precedence.level() {
                return Ok(left);
            }
            let extended = if self.current_is(TokenKind::LeftParen) {
                proof {
                    crate::grammar::parse_call_advances(tokens, here, left@);
                }
                self.parse_postfix_expression(left)
            } else {
                proof {
                    crate::grammar::parse_infix_advances(tokens, here, left@);
                }
                self.parse_infix_expression(left)
            };
            match extended {
                Ok(expression) => {
                    left = expression;
                },
                Err(error) => {
                    return Err(error);
                },
            }
        }
    }

    /// Parses a primary expression: a literal, an identifier, a closure, or
    /// a unary operator with its operand.
    fn parse_prefix(&mut self) -> (result: Result<Expression, ParseError>)
        requires
            old(self).well_formed(),
        ensures
            final(self).well_formed(),
            final(self).input() == old(self).input(),
            parsed_as(
                result,
                parse_prefix(old(self).input(), old(self).position()),
                final(self).position(),
                |expression: Expression| expression@,
            ),
        decreases old(self).input().len() - old(self).position(), 1int,
    {
        let ghost tokens = self.input();
        let ghost start = self.position();
        match self.current.kind() {
            TokenKind::String => {
                let token = self.expect_token_and_read(TokenKind::String)?;
                Ok(Expression::String(token.into_text()))
            },
            TokenKind::Number => {
                let token = self.expect_token_and_read(TokenKind::Number)?;
                Ok(Expression::Number(token.into_text()))
            },
            TokenKind::True => {
                self.expect_token_and_read(TokenKind::True)?;
                Ok(Expression::Bool(true))
            },
            TokenKind::False => {
                self.expect_token_and_read(TokenKind::False)?;
                Ok(Expression::Bool(false))
            },
            TokenKind::Identifier => {
                let name = self.expect_identifier_and_read()?;
                Ok(Expression::Identifier(name))
            },
            TokenKind::Fn => {
                proof {
                    parse_function_advances(tokens, start, false);
                }
                match self.parse_fn(false)? {
                    Statement::FunctionDeclaration { params, body, name } => {
                        let ghost declaration = Statement::FunctionDeclaration {
                            params,
                            body,
                            name,
                        };
                        let closure = Expression::Closure(params, body);
                        proof {
                            declaration.model_of_function();
                            closure.model_of_closure();
                        }
                        Ok(closure)
                    },
                    _ => {
                        proof {
                            assert(false);
                        }
                        Err(ParseError::UnexpectedToken(Token::Fn))
                    },
                }
            },
            TokenKind::Minus => {
                self.expect_token_and_read(TokenKind::Minus)?;
                let operand = self.parse_expression(Precedence::Prefix)?;
                Ok(Expression::Prefix(Op::Negate, operand.boxed()))
            },
            TokenKind::Bang => {
                self.expect_token_and_read(TokenKind::Bang)?;
                let operand = self.parse_expression(Precedence::Prefix)?;
                Ok(Expression::Prefix(Op::Not, operand.boxed()))
            },
            _ => Err(ParseError::UnexpectedToken(self.current.clone())),
        }
    }

    /// Parses the operator at the current token and the right operand, and
    /// folds them with `left` into an infix expression.
    fn parse_infix_expression(&mut self, left: Expression) -> (result: Result<
        Expression,
        ParseError,
    >)
        requires
            old(self).well_formed(),
        ensures
            final(self).well_formed(),
            final(self).input() == old(self).input(),
            parsed_as(
                result,
                parse_infix(old(self).input(), old(self).position(), left@),
                final(self).position(),
                |expression: Expression| expression@,
            ),
        decreases old(self).input().len() - old(self).position(), 0int,
    {
        let kind = self.current.kind();
        if infix_operator_of(kind).is_none() {
            return Err(ParseError::UnexpectedToken(self.current.clone()));
        }
        let precedence = Precedence::token(&self.current);
        self.read();
        let right = self.parse_expression(precedence)?;
        Ok(make_infix_expression(left, kind, right))
    }

    /// Parses the arguments in parentheses at the current token and makes
    /// `left` the callee of the call.
    #[verifier::loop_isolation(false)]
    fn parse_postfix_expression(&mut self, left: Expression) -> (result: Result<
        Expression,
        ParseError,
    >)
        requires
            old(self).well_formed(),
        ensures
            final(self).well_formed(),
            final(self).input() == old(self).input(),
            parsed_as(
                result,
                parse_call(old(self).input(), old(self).position(), left@),
                final(self).position(),
                |expression: Expression| expression@,
            ),
        decreases old(self).input().len() - old(self).position(), 0int,
    {
        let ghost tokens = self.input();
        let ghost start = self.position();
        self.expect_token_and_read(TokenKind::LeftParen)?;
        let mut arguments: Vec<Expression> = Vec::new();
        assert(expression_models(arguments@) =~= Seq::<ExpressionModel>::empty());
        loop
            invariant
                self.well_formed(),
                self.input() == tokens,
                start < self.position() <= tokens.len(),
                parse_arguments(tokens, self.position(), expression_models(arguments@))
                    == parse_arguments(tokens, start + 1, Seq::empty()),
            decreases tokens.len() - self.position(),
        {
            let ghost here = self.position();
            let ghost done = expression_models(arguments@);
            if self.current_is(TokenKind::RightParen) {
                break ;
            }
            proof {
                parse_expression_advances(tokens, here, Precedence::Lowest);
            }
            let argument = self.parse_expression(Precedence::Lowest)?;
            arguments.push(argument);
            assert(expression_models(arguments@) =~= done.push(argument@));
            if self.current_is(TokenKind::Comma) {
                self.read();
            }
        }
        self.expect_token_and_read(TokenKind::RightParen)?;
        let call = Expression::Call(Box::new(left), arguments);
        proof {
            call.model_of_call();
        }
        Ok(call)
    }

    /// Parses a block: statements between braces.
    #[verifier::loop_isolation(false)]
    fn parse_block(&mut self) -> (result: Result<Block, ParseError>)
        requires
            old(self).well_formed(),
        ensures
            final(self).well_formed(),
            final(self).input() == old(self).input(),
            parsed_as(
                result,
                parse_block(old(self).input(), old(self).position()),
                final(self).position(),
                |block: Block| statement_models(block@),
            ),
        decreases old(self).input().len() - old(self).position(), 5int,
    {
        let ghost tokens = self.input();
        let ghost start = self.position();
        self.expect_token_and_read(TokenKind::LeftBrace)?;
        let mut block: Vec<Statement> = Vec::new();
        assert(statement_models(block@) =~= Seq::<StatementModel>::empty());
        loop
            invariant
                self.well_formed(),
                self.input() == tokens,
                start < self.position() <= tokens.len(),
                parse_block_rest(tokens, self.position(), statement_models(block@))
                    == parse_block_rest(tokens, start + 1, Seq::empty()),
            decreases tokens.len() - self.position(),
        {
            let ghost here = self.position();
            let ghost done = statement_models(block@);
            if self.current_is(TokenKind::RightBrace) {
                break ;
            }
            proof {
                parse_statement_advances(tokens, here);
            }
            let statement = self.parse_statement()?;
            block.push(statement);
            assert(statement_models(block@) =~= done.push(statement@));
        }
        self.expect_token_and_read(TokenKind::RightBrace)?;
        Ok(block)
    }

    /// Parses a declaration of a variable, with or without a first value.
    fn parse_let(&mut self) -> (result: Result<Statement, ParseError>)
        requires
            old(self).well_formed(),
        ensures
            final(self).well_formed(),
            final(self).input() == old(self).input(),
            parsed_as(
                result,
                parse_let(old(self).input(), old(self).position()),
                final(self).position(),
                |statement: Statement| statement@,
            ),
        decreases old(self).input().len() - old(self).position(), 0int,
    {
        self.expect_token_and_read(TokenKind::Let)?;
        let name: Identifier = self.expect_identifier_and_read()?;
        let initial: Option<Expression> = if self.current_is(TokenKind::Assign) {
            self.expect_token_and_read(TokenKind::Assign)?;
            Some(self.parse_expression(Precedence::Lowest)?)
        } else {
            None
        };
        Ok(Statement::LetDeclaration { name, initial })
    }

    /// Parses a function: with its name where `with_identifier` is set, else
    /// under the name of a closure.
    #[verifier::loop_isolation(false)]
    fn parse_fn(&mut self, with_identifier: bool) -> (result: Result<Statement, ParseError>)
        requires
            old(self).well_formed(),
        ensures
            final(self).well_formed(),
            final(self).input() == old(self).input(),
            parsed_as(
                result,
                parse_function(old(self).input(), old(self).position(), with_identifier),
                final(self).position(),
                |statement: Statement| statement@,
            ),
        decreases old(self).input().len() - old(self).position(), 0int,
    {
        let ghost tokens = self.input();
        let ghost start = self.position();
        self.expect_token_and_read(TokenKind::Fn)?;
        let name: Identifier = if with_identifier {
            self.expect_identifier_and_read()?
        } else {
            String::from_str("<Closure>")
        };
        self.expect_token_and_read(TokenKind::LeftParen)?;
        let ghost open = self.position();
        let mut params: Vec<Parameter> = Vec::new();
        assert(parameter_names(params@) =~= Seq::<Seq<char>>::empty());
        loop
            invariant
                self.well_formed(),
                self.input() == tokens,
                start < open <= self.position() <= tokens.len(),
                parse_parameters(tokens, self.position(), parameter_names(params@))
                    == parse_parameters(tokens, open, Seq::empty()),
            decreases tokens.len() - self.position(),
        {
            let ghost done = parameter_names(params@);
            if self.current_is(TokenKind::RightParen) {
                break ;
            }
            if self.current_is(TokenKind::Comma) {
                self.expect_token_and_read(TokenKind::Comma)?;
            }
            let param = self.expect_identifier_and_read()?;
            params.push(Parameter { name: param });
            assert(parameter_names(params@) =~= done.push(param@));
        }
        self.expect_token_and_read(TokenKind::RightParen)?;
        let body = self.parse_block()?;
        let declaration = Statement::FunctionDeclaration { name, params, body };
        proof {
            declaration.model_of_function();
        }
        Ok(declaration)
    }

    /// Parses a conditional: the condition, a block, and a second block
    /// where `else` follows.
    fn parse_if(&mut self) -> (result: Result<Statement, ParseError>)
        requires
            old(self).well_formed(),
        ensures
            final(self).well_formed(),
            final(self).input() == old(self).input(),
            parsed_as(
                result,
                parse_if(old(self).input(), old(self).position()),
                final(self).position(),
                |statement: Statement| statement@,
            ),
        decreases old(self).input().len() - old(self).position(), 0int,
    {
        let ghost tokens = self.input();
        let ghost start = self.position();
        self.expect_token_and_read(TokenKind::If)?;
        proof {
            parse_expression_advances(tokens, start + 1, Precedence::Lowest);
        }
        let condition = self.parse_expression(Precedence::Lowest)?;
        proof {
            parse_block_advances(tokens, self.position());
        }
        let consequent = self.parse_block()?;
        let otherwise = if self.current_is(TokenKind::Else) {
            self.expect_token_and_read(TokenKind::Else)?;
            Some(self.parse_block()?)
        } else {
            None
        };
        let conditional = Statement::If { condition, consequent, otherwise };
        proof {
            conditional.model_of_if();
        }
        Ok(conditional)
    }

    /// Parses the next statement of the program, if the input has not ended.
    pub fn next(&mut self) -> (result: Result<Option<Statement>, ParseError>)
        requires
            old(self).well_formed(),
        ensures
            final(self).well_formed(),
            final(self).input() == old(self).input(),
            kind_at(old(self).input(), old(self).position()) == TokenKind::Eof ==> result == Ok::<
                Option<Statement>,
                ParseError,
            >(None) && final(self).position() == old(self).position(),
            kind_at(old(self).input(), old(self).position()) != TokenKind::Eof ==> parsed_as(
                result,
                parse_statement(old(self).input(), old(self).position()),
                final(self).position(),
                |statement: Option<Statement>| statement->0@,
            ) && !(result matches Ok(None)),
    {
        if self.current_is(TokenKind::Eof) {
            return Ok(None);
        }
        Ok(Some(self.parse_statement()?))
    }

    /// Parses the statements from the parser's position to the end of the
    /// input.
    pub fn parse(&mut self) -> (result: Result<Program, ParseError>)
        requires
            old(self).well_formed(),
        ensures
            final(self).well_formed(),
            final(self).input() == old(self).input(),
            match parse_program_rest(old(self).input(), old(self).position(), Seq::empty()) {
                Ok(program) => result matches Ok(statements) && statement_models(statements@)
                    == program,
                Err(unexpected) => result matches Err(error) && error@ == unexpected,
            },
    {
        let ghost tokens = self.input();
        let ghost start = self.position();
        let mut program: Program = Vec::new();
        assert(statement_models(program@) =~= Seq::<StatementModel>::empty());
        loop
            invariant
                self.well_formed(),
                self.input() == tokens,
                tokens == old(self).input(),
                start == old(self).position(),
                start <= self.position() <= tokens.len(),
                parse_program_rest(tokens, self.position(), statement_models(program@))
                    == parse_program_rest(tokens, start, Seq::empty()),
            decreases tokens.len() - self.position(),
        {
            let ghost here = self.position();
            let ghost done = statement_models(program@);
            proof {
                parse_statement_advances(tokens, here);
            }
            match self.next()? {
                Some(statement) => {
                    program.push(statement);
                    assert(statement_models(program@) =~= done.push(statement@));
                },
                None => {
                    return Ok(program);
                },
            }
        }
    }
}

/// Parses a token sequence into a program. The first token that stands
/// where another was expected ends the parse with an error that holds it.
pub fn parse(tokens: Vec<Token>) -> (result: Result<Program, ParseError>)
    ensures
        match parse_program(lexemes(tokens@)) {
            Ok(program) => result matches Ok(statements) && statement_models(statements@)
                == program,
            Err(unexpected) => result matches Err(error) && error@ == unexpected,
        },
{
    let mut parser = Parser::new(tokens);
    parser.parse()
}

} // verus!
