//! The grammar of the language, as functions from a token sequence and a
//! position to what is parsed there. The parser is verified against them.

use crate::ast::{ExpressionModel, Op, StatementModel};
use crate::token::{Lexeme, Token, TokenKind};
use vstd::prelude::*;

verus! {

/// How tightly an operator binds. The levels, from loosest to tightest:
/// `Lowest`, `Sum`, `Product`, `Prefix`, `Call`.
#[derive(Debug, Clone, Copy, PartialEq, Eq, Structural)]
pub enum Precedence {
    Lowest,
    Sum,
    Product,
    Prefix,
    Call,
}

impl Precedence {
    /// The place of this level in the order of levels.
    pub open spec fn rank(self) -> nat {
        match self {
            Precedence::Lowest => 0,
            Precedence::Sum => 1,
            Precedence::Product => 2,
            Precedence::Prefix => 3,
            Precedence::Call => 4,
        }
    }

    /// The place of this level in the order of levels, as a number.
    pub fn level(self) -> (level: u8)
        ensures
            level == self.rank(),
    {
        match self {
            Precedence::Lowest => 0,
            Precedence::Sum => 1,
            Precedence::Product => 2,
            Precedence::Prefix => 3,
            Precedence::Call => 4,
        }
    }

    /// The level at which `token` binds when it follows an expression.
    pub fn token(token: &Token) -> (precedence: Precedence)
        ensures
            precedence == precedence_of(token@.kind),
    {
        match token.kind() {
            TokenKind::Asterisk | TokenKind::Slash => Precedence::Product,
            TokenKind::Plus | TokenKind::Minus => Precedence::Sum,
            TokenKind::LeftParen => Precedence::Call,
            _ => Precedence::Lowest,
        }
    }
}

/// The level at which a token of the given kind binds when it follows an
/// expression.
pub open spec fn precedence_of(kind: TokenKind) -> Precedence {
    match kind {
        TokenKind::Asterisk | TokenKind::Slash => Precedence::Product,
        TokenKind::Plus | TokenKind::Minus => Precedence::Sum,
        TokenKind::LeftParen => Precedence::Call,
        _ => Precedence::Lowest,
    }
}

/// The binary operator that a token of the given kind stands for, if any.
pub open spec fn infix_operator(kind: TokenKind) -> Option<Op> {
    match kind {
        TokenKind::Plus => Some(Op::Add),
        TokenKind::Minus => Some(Op::Subtract),
        TokenKind::Asterisk => Some(Op::Multiply),
        TokenKind::Slash => Some(Op::Divide),
        _ => None,
    }
}

/// The unary operator that a token of the given kind stands for, if any.
pub open spec fn prefix_operator(kind: TokenKind) -> Option<Op> {
    match kind {
        TokenKind::Minus => Some(Op::Negate),
        TokenKind::Bang => Some(Op::Not),
        _ => None,
    }
}

/// The token at `pos`; behind the last token, the end of input.
pub open spec fn token_at(tokens: Seq<Lexeme>, pos: int) -> Lexeme {
    if 0 <= pos < tokens.len() {
        tokens[pos]
    } else {
        Lexeme::eof()
    }
}

/// The kind of the token at `pos`.
pub open spec fn kind_at(tokens: Seq<Lexeme>, pos: int) -> TokenKind {
    token_at(tokens, pos).kind
}

/// The name that a function without a name of its own is given.
pub open spec fn closure_name() -> Seq<char> {
    "<Closure>"@
}

/// The result of parsing at some position: what was parsed and the position
/// behind it, or the token that was found where another was expected.
pub enum Parsed<T> {
    Accepted { value: T, next: int },
    Rejected { unexpected: Lexeme },
}

/// The token at `pos` if it is of the given kind, which is then consumed.
pub open spec fn expect(tokens: Seq<Lexeme>, pos: int, kind: TokenKind) -> Parsed<Lexeme> {
    if kind_at(tokens, pos) == kind {
        Parsed::Accepted { value: token_at(tokens, pos), next: pos + 1 }
    } else {
        Parsed::Rejected { unexpected: token_at(tokens, pos) }
    }
}

/// The name that the identifier at `pos` carries, if there is one, which is
/// then consumed.
pub open spec fn expect_name(tokens: Seq<Lexeme>, pos: int) -> Parsed<Seq<char>> {
    if kind_at(tokens, pos) == TokenKind::Identifier {
        Parsed::Accepted { value: token_at(tokens, pos).text, next: pos + 1 }
    } else {
        Parsed::Rejected { unexpected: token_at(tokens, pos) }
    }
}

/// An expression that starts at `pos`, with operators that bind more tightly
/// than `min`: a primary expression, then the operators and calls that follow.
pub open spec fn parse_expression(tokens: Seq<Lexeme>, pos: int, min: Precedence) -> Parsed<
    ExpressionModel,
>
    decreases tokens.len() - pos, 2int,
{
    match parse_prefix(tokens, pos) {
        Parsed::Rejected { unexpected } => Parsed::Rejected { unexpected },
        Parsed::Accepted { value, next } => {
            if pos < next <= tokens.len() {
                parse_rest(tokens, next, value, min)
            } else {
                Parsed::Accepted { value, next }
            }
        },
    }
}

/// A primary expression at `pos`: a literal, an identifier, a closure, or a
/// unary operator with its operand.
pub open spec fn parse_prefix(tokens: Seq<Lexeme>, pos: int) -> Parsed<ExpressionModel>
    decreases tokens.len() - pos, 1int,
{
    let token = token_at(tokens, pos);
    match token.kind {
        TokenKind::String => Parsed::Accepted {
            value: ExpressionModel::String(token.text),
            next: pos + 1,
        },
        TokenKind::Number => Parsed::Accepted {
            value: ExpressionModel::Number(token.text),
            next: pos + 1,
        },
        TokenKind::True => Parsed::Accepted { value: ExpressionModel::Bool(true), next: pos + 1 },
        TokenKind::False => Parsed::Accepted { value: ExpressionModel::Bool(false), next: pos + 1 },
        TokenKind::Identifier => Parsed::Accepted {
            value: ExpressionModel::Identifier(token.text),
            next: pos + 1,
        },
        TokenKind::Fn => match parse_function(tokens, pos, false) {
            Parsed::Accepted {
                value: StatementModel::FunctionDeclaration { params, body, .. },
                next,
            } => Parsed::Accepted { value: ExpressionModel::Closure(params, body), next },
            Parsed::Accepted { value, next } => Parsed::Rejected { unexpected: token },
            Parsed::Rejected { unexpected } => Parsed::Rejected { unexpected },
        },
        TokenKind::Minus | TokenKind::Bang => match parse_expression(
            tokens,
            pos + 1,
            Precedence::Prefix,
        ) {
            Parsed::Accepted { value, next } => Parsed::Accepted {
                value: ExpressionModel::Prefix(prefix_operator(token.kind)->0, Box::new(value)),
                next,
            },
            Parsed::Rejected { unexpected } => Parsed::Rejected { unexpected },
        },
        _ => Parsed::Rejected { unexpected: token },
    }
}

/// What follows the expression `left`, which ends at `pos`: as long as the
/// next token binds more tightly than `min`, it extends `left`, as a call if
/// it is a parenthesis and as an infix expression otherwise.
pub open spec fn parse_rest(
    tokens: Seq<Lexeme>,
    pos: int,
    left: ExpressionModel,
    min: Precedence,
) -> Parsed<ExpressionModel>
    decreases tokens.len() - pos, 1int,
{
    let kind = kind_at(tokens, pos);
    if kind == TokenKind::Eof || precedence_of(kind).rank() <= min.rank() {
        Parsed::Accepted { value: left, next: pos }
    } else {
        let extended = if kind == TokenKind::LeftParen {
            parse_call(tokens, pos, left)
        } else {
            parse_infix(tokens, pos, left)
        };
        match extended {
            Parsed::Accepted { value, next } => {
                if pos < next <= tokens.len() {
                    parse_rest(tokens, next, value, min)
                } else {
                    Parsed::Accepted { value, next }
                }
            },
            Parsed::Rejected { unexpected } => Parsed::Rejected { unexpected },
        }
    }
}

/// The call of `left` whose opening parenthesis stands at `pos`.
pub open spec fn parse_call(tokens: Seq<Lexeme>, pos: int, left: ExpressionModel) -> Parsed<
    ExpressionModel,
>
    decreases tokens.len() - pos, 0int,
{
    if kind_at(tokens, pos) != TokenKind::LeftParen {
        Parsed::Rejected { unexpected: token_at(tokens, pos) }
    } else {
        match parse_arguments(tokens, pos + 1, Seq::empty()) {
            Parsed::Accepted { value, next } => Parsed::Accepted {
                value: ExpressionModel::Call(Box::new(left), value),
                next,
            },
            Parsed::Rejected { unexpected } => Parsed::Rejected { unexpected },
        }
    }
}

/// The infix expression with the left operand `left` whose operator stands
/// at `pos`. The right operand is parsed at the operator's level, so an
/// operator of the same level that follows it is not part of it: operators of
/// one level group to the left.
pub open spec fn parse_infix(tokens: Seq<Lexeme>, pos: int, left: ExpressionModel) -> Parsed<
    ExpressionModel,
>
    decreases tokens.len() - pos, 0int,
{
    let kind = kind_at(tokens, pos);
    if infix_operator(kind) is None {
        Parsed::Rejected { unexpected: token_at(tokens, pos) }
    } else {
        match parse_expression(tokens, pos + 1, precedence_of(kind)) {
            Parsed::Accepted { value, next } => Parsed::Accepted {
                value: ExpressionModel::Infix(
                    Box::new(left),
                    infix_operator(kind)->0,
                    Box::new(value),
                ),
                next,
            },
            Parsed::Rejected { unexpected } => Parsed::Rejected { unexpected },
        }
    }
}

/// The arguments of a call from `pos` on, after those in `done`: expressions
/// up to the closing parenthesis, each of which a comma may follow.
pub open spec fn parse_arguments(
    tokens: Seq<Lexeme>,
    pos: int,
    done: Seq<ExpressionModel>,
) -> Parsed<Seq<ExpressionModel>>
    decreases tokens.len() - pos, 3int,
{
    if kind_at(tokens, pos) == TokenKind::RightParen {
        Parsed::Accepted { value: done, next: pos + 1 }
    } else {
        match parse_expression(tokens, pos, Precedence::Lowest) {
            Parsed::Accepted { value, next } => {
                let after = if kind_at(tokens, next) == TokenKind::Comma {
                    next + 1
                } else {
                    next
                };
                if pos < after <= tokens.len() {
                    parse_arguments(tokens, after, done.push(value))
                } else {
                    Parsed::Accepted { value: done.push(value), next: after }
                }
            },
            Parsed::Rejected { unexpected } => Parsed::Rejected { unexpected },
        }
    }
}

/// The parameters of a function from `pos` on, after those in `done`:
/// identifiers up to the closing parenthesis, each of which a comma may
/// precede.
pub open spec fn parse_parameters(tokens: Seq<Lexeme>, pos: int, done: Seq<Seq<char>>) -> Parsed<
    Seq<Seq<char>>,
>
    decreases tokens.len() - pos,
{
    if kind_at(tokens, pos) == TokenKind::RightParen {
        Parsed::Accepted { value: done, next: pos + 1 }
    } else {
        let name = if kind_at(tokens, pos) == TokenKind::Comma {
            pos + 1
        } else {
            pos
        };
        if kind_at(tokens, name) != TokenKind::Identifier {
            Parsed::Rejected { unexpected: token_at(tokens, name) }
        } else if pos < name + 1 <= tokens.len() {
            parse_parameters(tokens, name + 1, done.push(token_at(tokens, name).text))
        } else {
            Parsed::Accepted { value: done.push(token_at(tokens, name).text), next: name + 1 }
        }
    }
}

/// A function at `pos`: `fn`, a name if `named`, the parameters in
/// parentheses, and a block. Without a name of its own the function is given
/// `closure_name()`.
pub open spec fn parse_function(tokens: Seq<Lexeme>, pos: int, named: bool) -> Parsed<
    StatementModel,
>
    decreases tokens.len() - pos, 0int,
{
    let open = if named {
        pos + 2
    } else {
        pos + 1
    };
    if kind_at(tokens, pos) != TokenKind::Fn {
        Parsed::Rejected { unexpected: token_at(tokens, pos) }
    } else if named && kind_at(tokens, pos + 1) != TokenKind::Identifier {
        Parsed::Rejected { unexpected: token_at(tokens, pos + 1) }
    } else if kind_at(tokens, open) != TokenKind::LeftParen {
        Parsed::Rejected { unexpected: token_at(tokens, open) }
    } else {
        let name = if named {
            token_at(tokens, pos + 1).text
        } else {
            closure_name()
        };
        match parse_parameters(tokens, open + 1, Seq::empty()) {
            Parsed::Accepted { value: params, next } => {
                if pos < next <= tokens.len() {
                    match parse_block(tokens, next) {
                        Parsed::Accepted { value: body, next } => Parsed::Accepted {
                            value: StatementModel::FunctionDeclaration { name, params, body },
                            next,
                        },
                        Parsed::Rejected { unexpected } => Parsed::Rejected { unexpected },
                    }
                } else {
                    Parsed::Rejected { unexpected: token_at(tokens, next) }
                }
            },
            Parsed::Rejected { unexpected } => Parsed::Rejected { unexpected },
        }
    }
}

/// A block at `pos`: statements between braces.
pub open spec fn parse_block(tokens: Seq<Lexeme>, pos: int) -> Parsed<Seq<StatementModel>>
    decreases tokens.len() - pos, 5int,
{
    if kind_at(tokens, pos) != TokenKind::LeftBrace {
        Parsed::Rejected { unexpected: token_at(tokens, pos) }
    } else {
        parse_block_rest(tokens, pos + 1, Seq::empty())
    }
}

/// The statements of a block from `pos` on, after those in `done`, up to the
/// closing brace.
pub open spec fn parse_block_rest(
    tokens: Seq<Lexeme>,
    pos: int,
    done: Seq<StatementModel>,
) -> Parsed<Seq<StatementModel>>
    decreases tokens.len() - pos, 4int,
{
    if kind_at(tokens, pos) == TokenKind::RightBrace {
        Parsed::Accepted { value: done, next: pos + 1 }
    } else {
        match parse_statement(tokens, pos) {
            Parsed::Accepted { value, next } => {
                if pos < next <= tokens.len() {
                    parse_block_rest(tokens, next, done.push(value))
                } else {
                    Parsed::Accepted { value: done.push(value), next }
                }
            },
            Parsed::Rejected { unexpected } => Parsed::Rejected { unexpected },
        }
    }
}

/// A statement at `pos`. Its first token decides: `fn` starts a function
/// declaration, `let` a declaration of a variable, `if` a conditional, and
/// anything else an expression.
pub open spec fn parse_statement(tokens: Seq<Lexeme>, pos: int) -> Parsed<StatementModel>
    decreases tokens.len() - pos, 3int,
{
    match kind_at(tokens, pos) {
        TokenKind::Fn => parse_function(tokens, pos, true),
        TokenKind::Let => parse_let(tokens, pos),
        TokenKind::If => parse_if(tokens, pos),
        _ => match parse_expression(tokens, pos, Precedence::Lowest) {
            Parsed::Accepted { value, next } => Parsed::Accepted {
                value: StatementModel::Expression { expression: value },
                next,
            },
            Parsed::Rejected { unexpected } => Parsed::Rejected { unexpected },
        },
    }
}

/// A declaration at `pos`: `let`, a name, and, if `=` follows, the
/// expression that gives the first value.
pub open spec fn parse_let(tokens: Seq<Lexeme>, pos: int) -> Parsed<StatementModel>
    decreases tokens.len() - pos, 0int,
{
    if kind_at(tokens, pos) != TokenKind::Let {
        Parsed::Rejected { unexpected: token_at(tokens, pos) }
    } else if kind_at(tokens, pos + 1) != TokenKind::Identifier {
        Parsed::Rejected { unexpected: token_at(tokens, pos + 1) }
    } else {
        let name = token_at(tokens, pos + 1).text;
        if kind_at(tokens, pos + 2) == TokenKind::Assign {
            match parse_expression(tokens, pos + 3, Precedence::Lowest) {
                Parsed::Accepted { value, next } => Parsed::Accepted {
                    value: StatementModel::LetDeclaration { name, initial: Some(value) },
                    next,
                },
                Parsed::Rejected { unexpected } => Parsed::Rejected { unexpected },
            }
        } else {
            Parsed::Accepted {
                value: StatementModel::LetDeclaration { name, initial: None },
                next: pos + 2,
            }
        }
    }
}

/// A conditional at `pos`: `if`, the condition, a block, and, if `else`
/// follows, a second block.
pub open spec fn parse_if(tokens: Seq<Lexeme>, pos: int) -> Parsed<StatementModel>
    decreases tokens.len() - pos, 0int,
{
    if kind_at(tokens, pos) != TokenKind::If {
        Parsed::Rejected { unexpected: token_at(tokens, pos) }
    } else {
        match parse_expression(tokens, pos + 1, Precedence::Lowest) {
            Parsed::Accepted { value: condition, next } => {
                if pos < next <= tokens.len() {
                    match parse_block(tokens, next) {
                        Parsed::Accepted { value: consequent, next } => {
                            if kind_at(tokens, next) == TokenKind::Else {
                                if pos < next + 1 <= tokens.len() {
                                    match parse_block(tokens, next + 1) {
                                        Parsed::Accepted { value: otherwise, next } => {
                                            Parsed::Accepted {
                                                value: StatementModel::If {
                                                    condition,
                                                    consequent,
                                                    otherwise: Some(otherwise),
                                                },
                                                next,
                                            }
                                        },
                                        Parsed::Rejected { unexpected } => Parsed::Rejected {
                                            unexpected,
                                        },
                                    }
                                } else {
                                    Parsed::Rejected { unexpected: token_at(tokens, next + 1) }
                                }
                            } else {
                                Parsed::Accepted {
                                    value: StatementModel::If {
                                        condition,
                                        consequent,
                                        otherwise: None,
                                    },
                                    next,
                                }
                            }
                        },
                        Parsed::Rejected { unexpected } => Parsed::Rejected { unexpected },
                    }
                } else {
                    Parsed::Rejected { unexpected: token_at(tokens, next) }
                }
            },
            Parsed::Rejected { unexpected } => Parsed::Rejected { unexpected },
        }
    }
}

/// The statements of a program from `pos` on, after those in `done`, up to
/// the end of input.
pub open spec fn parse_program_rest(
    tokens: Seq<Lexeme>,
    pos: int,
    done: Seq<StatementModel>,
) -> Result<Seq<StatementModel>, Lexeme>
    decreases tokens.len() - pos, 4int,
{
    if kind_at(tokens, pos) == TokenKind::Eof {
        Ok(done)
    } else {
        match parse_statement(tokens, pos) {
            Parsed::Accepted { value, next } => {
                if pos < next <= tokens.len() {
                    parse_program_rest(tokens, next, done.push(value))
                } else {
                    Ok(done.push(value))
                }
            },
            Parsed::Rejected { unexpected } => Err(unexpected),
        }
    }
}

/// The program that a token sequence spells, or the first token that stands
/// where another was expected.
pub open spec fn parse_program(tokens: Seq<Lexeme>) -> Result<Seq<StatementModel>, Lexeme> {
    parse_program_rest(tokens, 0, Seq::empty())
}

/// Whether a result of parsing at `pos`, where it accepts, ends behind `pos`
/// and inside the token sequence.
pub open spec fn advances<T>(parsed: Parsed<T>, tokens: Seq<Lexeme>, pos: int) -> bool {
    parsed matches Parsed::Accepted { next, .. } ==> pos < next <= tokens.len()
}

/// An accepted expression is not empty and ends inside the token sequence.
pub proof fn parse_expression_advances(tokens: Seq<Lexeme>, pos: int, min: Precedence)
    requires
        0 <= pos,
    ensures
        advances(parse_expression(tokens, pos, min), tokens, pos),
    decreases tokens.len() - pos, 2int,
{
    parse_prefix_advances(tokens, pos);
    if let Parsed::Accepted { value, next } = parse_prefix(tokens, pos) {
        parse_rest_advances(tokens, next, value, min);
    }
}

/// An accepted primary expression is not empty and ends inside the token
/// sequence.
pub proof fn parse_prefix_advances(tokens: Seq<Lexeme>, pos: int)
    requires
        0 <= pos,
    ensures
        advances(parse_prefix(tokens, pos), tokens, pos),
    decreases tokens.len() - pos, 1int,
{
    match kind_at(tokens, pos) {
        TokenKind::Fn => {
            parse_function_advances(tokens, pos, false);
        },
        TokenKind::Minus | TokenKind::Bang => {
            parse_expression_advances(tokens, pos + 1, Precedence::Prefix);
        },
        _ => {},
    }
}

/// What follows an expression ends at or behind the expression and inside
/// the token sequence.
pub proof fn parse_rest_advances(
    tokens: Seq<Lexeme>,
    pos: int,
    left: ExpressionModel,
    min: Precedence,
)
    requires
        0 <= pos <= tokens.len(),
    ensures
        parse_rest(tokens, pos, left, min) matches Parsed::Accepted { next, .. } ==> pos <= next
            <= tokens.len(),
    decreases tokens.len() - pos, 1int,
{
    let kind = kind_at(tokens, pos);
    if kind == TokenKind::Eof || precedence_of(kind).rank() <= min.rank() {
    } else {
        let extended = if kind == TokenKind::LeftParen {
            parse_call_advances(tokens, pos, left);
            parse_call(tokens, pos, left)
        } else {
            parse_infix_advances(tokens, pos, left);
            parse_infix(tokens, pos, left)
        };
        if let Parsed::Accepted { value, next } = extended {
            parse_rest_advances(tokens, next, value, min);
        }
    }
}

/// An accepted call ends behind its parenthesis and inside the token
/// sequence.
pub proof fn parse_call_advances(tokens: Seq<Lexeme>, pos: int, left: ExpressionModel)
    requires
        0 <= pos,
    ensures
        advances(parse_call(tokens, pos, left), tokens, pos),
    decreases tokens.len() - pos, 0int,
{
    if kind_at(tokens, pos) == TokenKind::LeftParen {
        parse_arguments_advances(tokens, pos + 1, Seq::empty());
    }
}

/// An accepted infix expression ends behind its operator and inside the
/// token sequence.
pub proof fn parse_infix_advances(tokens: Seq<Lexeme>, pos: int, left: ExpressionModel)
    requires
        0 <= pos,
    ensures
        advances(parse_infix(tokens, pos, left), tokens, pos),
    decreases tokens.len() - pos, 0int,
{
    let kind = kind_at(tokens, pos);
    if infix_operator(kind) is Some {
        parse_expression_advances(tokens, pos + 1, precedence_of(kind));
    }
}

/// An accepted argument list is not empty and ends inside the token sequence.
pub proof fn parse_arguments_advances(tokens: Seq<Lexeme>, pos: int, done: Seq<ExpressionModel>)
    requires
        0 <= pos,
    ensures
        advances(parse_arguments(tokens, pos, done), tokens, pos),
    decreases tokens.len() - pos, 3int,
{
    if kind_at(tokens, pos) != TokenKind::RightParen {
        parse_expression_advances(tokens, pos, Precedence::Lowest);
        if let Parsed::Accepted { value, next } = parse_expression(
            tokens,
            pos,
            Precedence::Lowest,
        ) {
            let after = if kind_at(tokens, next) == TokenKind::Comma {
                next + 1
            } else {
                next
            };
            parse_arguments_advances(tokens, after, done.push(value));
        }
    }
}

/// An accepted parameter list is not empty and ends inside the token sequence.
pub proof fn parse_parameters_advances(tokens: Seq<Lexeme>, pos: int, done: Seq<Seq<char>>)
    requires
        0 <= pos,
    ensures
        advances(parse_parameters(tokens, pos, done), tokens, pos),
    decreases tokens.len() - pos,
{
    if kind_at(tokens, pos) != TokenKind::RightParen {
        let name = if kind_at(tokens, pos) == TokenKind::Comma {
            pos + 1
        } else {
            pos
        };
        if kind_at(tokens, name) == TokenKind::Identifier {
            parse_parameters_advances(tokens, name + 1, done.push(token_at(tokens, name).text));
        }
    }
}

/// An accepted function is not empty, ends inside the token sequence, and is
/// a function declaration.
pub proof fn parse_function_advances(tokens: Seq<Lexeme>, pos: int, named: bool)
    requires
        0 <= pos,
    ensures
        advances(parse_function(tokens, pos, named), tokens, pos),
        parse_function(tokens, pos, named) matches Parsed::Accepted { value, .. }
            ==> value is FunctionDeclaration,
    decreases tokens.len() - pos, 0int,
{
    let open = if named {
        pos + 2
    } else {
        pos + 1
    };
    parse_parameters_advances(tokens, open + 1, Seq::empty());
    if let Parsed::Accepted { next, .. } = parse_parameters(tokens, open + 1, Seq::empty()) {
        if kind_at(tokens, pos) == TokenKind::Fn && kind_at(tokens, open) == TokenKind::LeftParen {
            parse_block_advances(tokens, next);
        }
    }
}

/// An accepted block is not empty and ends inside the token sequence.
pub proof fn parse_block_advances(tokens: Seq<Lexeme>, pos: int)
    requires
        0 <= pos,
    ensures
        advances(parse_block(tokens, pos), tokens, pos),
    decreases tokens.len() - pos, 5int,
{
    if kind_at(tokens, pos) == TokenKind::LeftBrace {
        parse_block_rest_advances(tokens, pos + 1, Seq::empty());
    }
}

/// The accepted rest of a block is not empty and ends inside the token
/// sequence.
pub proof fn parse_block_rest_advances(tokens: Seq<Lexeme>, pos: int, done: Seq<StatementModel>)
    requires
        0 <= pos,
    ensures
        advances(parse_block_rest(tokens, pos, done), tokens, pos),
    decreases tokens.len() - pos, 4int,
{
    if kind_at(tokens, pos) != TokenKind::RightBrace {
        parse_statement_advances(tokens, pos);
        if let Parsed::Accepted { value, next } = parse_statement(tokens, pos) {
            parse_block_rest_advances(tokens, next, done.push(value));
        }
    }
}

/// An accepted statement is not empty and ends inside the token sequence.
pub proof fn parse_statement_advances(tokens: Seq<Lexeme>, pos: int)
    requires
        0 <= pos,
    ensures
        advances(parse_statement(tokens, pos), tokens, pos),
    decreases tokens.len() - pos, 3int,
{
    match kind_at(tokens, pos) {
        TokenKind::Fn => {
            parse_function_advances(tokens, pos, true);
        },
        TokenKind::Let => {
            if kind_at(tokens, pos + 1) == TokenKind::Identifier && kind_at(tokens, pos + 2)
                == TokenKind::Assign {
                parse_expression_advances(tokens, pos + 3, Precedence::Lowest);
            }
        },
        TokenKind::If => {
            parse_expression_advances(tokens, pos + 1, Precedence::Lowest);
            if let Parsed::Accepted { next, .. } = parse_expression(
                tokens,
                pos + 1,
                Precedence::Lowest,
            ) {
                parse_block_advances(tokens, next);
                if let Parsed::Accepted { next, .. } = parse_block(tokens, next) {
                    if kind_at(tokens, next) == TokenKind::Else {
                        parse_block_advances(tokens, next + 1);
                    }
                }
            }
        },
        _ => {
            parse_expression_advances(tokens, pos, Precedence::Lowest);
        },
    }
}

} // verus!
