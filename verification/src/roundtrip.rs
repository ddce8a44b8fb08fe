//! Arithmetic expressions survive a round trip: the tokens that spell a
//! parsed expression parse to the same expression again.

use crate::ast::{Expression, ExpressionModel, Op, StatementModel};
use crate::grammar::{
    infix_operator, kind_at, parse_expression, parse_infix,
    parse_prefix, parse_prefix_advances, parse_program, parse_program_rest, parse_rest,
    parse_statement, precedence_of, prefix_operator, token_at, Parsed, Precedence,
};
use crate::lexer::{tokenize, LexError};
use crate::spelling::{
    numeral, print, print_of_concatenation, proper_name, tokenize_printed, tokens_are_valid,
    valid, writable,
};
use crate::token::{Lexeme, TokenKind};
use vstd::prelude::*;

verus! {

/// The kind of the token that spells a binary operator.
pub open spec fn infix_kind(op: Op) -> TokenKind {
    match op {
        Op::Subtract => TokenKind::Minus,
        Op::Multiply => TokenKind::Asterisk,
        Op::Divide => TokenKind::Slash,
        _ => TokenKind::Plus,
    }
}

/// The kind of the token that spells a unary operator.
pub open spec fn prefix_kind(op: Op) -> TokenKind {
    match op {
        Op::Not => TokenKind::Bang,
        _ => TokenKind::Minus,
    }
}

/// The arithmetic expressions: numbers and names, joined by the four binary
/// operators that have a token, and prefixed by the two unary operators.
pub open spec fn arithmetic_expression(expression: ExpressionModel) -> bool
    decreases expression,
{
    match expression {
        ExpressionModel::Number(_) => true,
        ExpressionModel::Identifier(_) => true,
        ExpressionModel::Prefix(op, operand) => prefix_operator(prefix_kind(op)) == Some(op)
            && arithmetic_expression(*operand),
        ExpressionModel::Infix(left, op, right) => infix_operator(infix_kind(op)) == Some(op)
            && arithmetic_expression(*left) && arithmetic_expression(*right),
        _ => false,
    }
}

/// The tokens that spell an arithmetic expression: its operands and
/// operators in the order in which they are written.
pub open spec fn unparse(expression: ExpressionModel) -> Seq<Lexeme>
    decreases expression,
{
    match expression {
        ExpressionModel::Number(text) => seq![Lexeme { kind: TokenKind::Number, text }],
        ExpressionModel::Identifier(text) => seq![Lexeme { kind: TokenKind::Identifier, text }],
        ExpressionModel::Prefix(op, operand) => seq![Lexeme::bare(prefix_kind(op))] + unparse(
            *operand,
        ),
        ExpressionModel::Infix(left, op, right) => unparse(*left) + seq![
            Lexeme::bare(infix_kind(op)),
        ] + unparse(*right),
        _ => Seq::empty(),
    }
}

/// How tightly the outermost operator of an expression binds: an infix
/// expression as its operator does, a prefix expression at the level of
/// prefixes, and every other expression at the highest level.
pub open spec fn binds(expression: ExpressionModel) -> nat {
    match expression {
        ExpressionModel::Infix(_, op, _) => precedence_of(infix_kind(op)).rank(),
        ExpressionModel::Prefix(..) => Precedence::Prefix.rank(),
        _ => Precedence::Call.rank(),
    }
}

/// The shape of the expressions that the parser builds. The operand of a
/// prefix is no infix expression. The left operand of an infix expression
/// binds at least as tightly as the operator, and the right operand more
/// tightly: operators of one level group to the left.
pub open spec fn canonical(expression: ExpressionModel) -> bool
    decreases expression,
{
    match expression {
        ExpressionModel::Prefix(_, operand) => canonical(*operand) && !(*operand is Infix),
        ExpressionModel::Infix(left, _, right) => canonical(*left) && canonical(*right) && binds(
            *left,
        ) >= binds(expression) && binds(*right) > binds(expression),
        _ => true,
    }
}

/// Whether an expression can be the result of parsing at the level `min`:
/// an infix expression only if its operator binds more tightly than `min`.
pub open spec fn fits(expression: ExpressionModel, min: Precedence) -> bool {
    expression is Infix ==> binds(expression) > min.rank()
}

/// Whether a token of the given kind ends an expression that is parsed at
/// the given level.
pub open spec fn stops(kind: TokenKind, level: nat) -> bool {
    kind == TokenKind::Eof || precedence_of(kind).rank() <= level
}

/// The spelling of an arithmetic expression is not empty, and its first
/// token starts an expression: it is a number, a name or a unary operator.
pub proof fn unparse_starts_an_expression(expression: ExpressionModel)
    requires
        arithmetic_expression(expression),
    ensures
        unparse(expression).len() > 0,
        unparse(expression)[0].kind == TokenKind::Number || unparse(expression)[0].kind
            == TokenKind::Identifier || unparse(expression)[0].kind == TokenKind::Minus
            || unparse(expression)[0].kind == TokenKind::Bang,
    decreases expression,
{
    match expression {
        ExpressionModel::Infix(left, op, right) => {
            unparse_starts_an_expression(*left);
        },
        _ => {},
    }
}

/// Where the tokens from `pos` on spell a canonical expression that fits the
/// level `min`, and the token behind them does not bind more tightly than the
/// expression, parsing at `pos` comes to the end of the spelling with the
/// expression in hand.
pub proof fn reparse_continues(
    expression: ExpressionModel,
    tokens: Seq<Lexeme>,
    pos: int,
    min: Precedence,
)
    requires
        arithmetic_expression(expression),
        canonical(expression),
        fits(expression, min),
        0 <= pos,
        pos + unparse(expression).len() <= tokens.len(),
        tokens.subrange(pos, pos + unparse(expression).len()) == unparse(expression),
        stops(kind_at(tokens, pos + unparse(expression).len()), binds(expression)),
    ensures
        parse_expression(tokens, pos, min) == parse_rest(
            tokens,
            pos + unparse(expression).len(),
            expression,
            min,
        ),
    decreases expression,
{
    let spelling = unparse(expression);
    let end = pos + spelling.len();
    unparse_starts_an_expression(expression);
    assert(forall|i: int| 0 <= i < spelling.len() ==> tokens[pos + i] == tokens.subrange(pos, end)[i]);
    match expression {
        ExpressionModel::Number(text) => {
            assert(tokens[pos] == spelling[0]);
        },
        ExpressionModel::Identifier(text) => {
            assert(tokens[pos] == spelling[0]);
        },
        ExpressionModel::Prefix(op, operand) => {
            let inner = unparse(*operand);
            assert(tokens[pos] == spelling[0]);
            assert(tokens.subrange(pos + 1, end) =~= inner) by {
                assert forall|i: int| 0 <= i < inner.len() implies tokens.subrange(pos + 1, end)[i]
                    == inner[i] by {
                    assert(tokens[pos + 1 + i] == spelling[1 + i]);
                }
            }
            reparse_continues(*operand, tokens, pos + 1, Precedence::Prefix);
        },
        ExpressionModel::Infix(left, op, right) => {
            let first = unparse(*left);
            let second = unparse(*right);
            let middle = pos + first.len();
            unparse_starts_an_expression(*left);
            unparse_starts_an_expression(*right);
            assert(spelling.len() == first.len() + 1 + second.len());
            assert(tokens.subrange(pos, middle) =~= first) by {
                assert forall|i: int| 0 <= i < first.len() implies tokens.subrange(pos, middle)[i]
                    == first[i] by {
                    assert(tokens[pos + i] == spelling[i]);
                }
            }
            assert(tokens[middle] == spelling[first.len() as int]);
            assert(token_at(tokens, middle) == Lexeme::bare(infix_kind(op)));
            assert(tokens.subrange(middle + 1, end) =~= second) by {
                assert forall|i: int| 0 <= i < second.len() implies tokens.subrange(
                    middle + 1,
                    end,
                )[i] == second[i] by {
                    assert(tokens[middle + 1 + i] == spelling[first.len() + 1 + i]);
                }
            }
            reparse_continues(*left, tokens, pos, min);
            reparse_continues(*right, tokens, middle + 1, precedence_of(infix_kind(op)));
            assert(parse_infix(tokens, middle, *left) == (Parsed::Accepted {
                value: expression,
                next: end,
            }));
        },
        _ => {},
    }
}

/// Whatever follows an expression keeps it as its leftmost part: if the
/// whole is arithmetic, so is the expression that it started from.
pub proof fn rest_keeps_left_arithmetic(
    tokens: Seq<Lexeme>,
    pos: int,
    left: ExpressionModel,
    min: Precedence,
)
    requires
        parse_rest(tokens, pos, left, min) matches Parsed::Accepted { value, .. }
            && arithmetic_expression(value),
    ensures
        arithmetic_expression(left),
    decreases tokens.len() - pos,
{
    let kind = kind_at(tokens, pos);
    if kind == TokenKind::Eof || precedence_of(kind).rank() <= min.rank() {
    } else {
        let extended = if kind == TokenKind::LeftParen {
            crate::grammar::parse_call(tokens, pos, left)
        } else {
            parse_infix(tokens, pos, left)
        };
        match extended {
            Parsed::Accepted { value, next } => {
                if pos < next <= tokens.len() {
                    rest_keeps_left_arithmetic(tokens, next, value, min);
                }
            },
            Parsed::Rejected { .. } => {},
        }
    }
}

/// An arithmetic expression that the parser accepts at some level is
/// canonical and fits the level, and the token behind it ends an expression
/// of that level.
pub proof fn parsed_expression_is_canonical(tokens: Seq<Lexeme>, pos: int, min: Precedence)
    requires
        0 <= pos,
        min != Precedence::Call,
        parse_expression(tokens, pos, min) matches Parsed::Accepted { value, .. }
            && arithmetic_expression(value),
    ensures
        parse_expression(tokens, pos, min) matches Parsed::Accepted { value, next } && canonical(
            value,
        ) && fits(value, min) && stops(kind_at(tokens, next), min.rank()),
    decreases tokens.len() - pos, 2int,
{
    parse_prefix_advances(tokens, pos);
    match parse_prefix(tokens, pos) {
        Parsed::Accepted { value, next } => {
            rest_keeps_left_arithmetic(tokens, next, value, min);
            parsed_prefix_is_canonical(tokens, pos);
            parsed_rest_is_canonical(tokens, next, value, min);
        },
        Parsed::Rejected { .. } => {},
    }
}

/// An arithmetic primary expression that the parser accepts is canonical
/// and no infix expression, and the token behind it does not bind more
/// tightly than it.
pub proof fn parsed_prefix_is_canonical(tokens: Seq<Lexeme>, pos: int)
    requires
        0 <= pos,
        parse_prefix(tokens, pos) matches Parsed::Accepted { value, .. } && arithmetic_expression(
            value,
        ),
    ensures
        parse_prefix(tokens, pos) matches Parsed::Accepted { value, next } && canonical(value)
            && !(value is Infix) && stops(kind_at(tokens, next), binds(value)),
    decreases tokens.len() - pos, 1int,
{
    match kind_at(tokens, pos) {
        TokenKind::Minus | TokenKind::Bang => {
            parsed_expression_is_canonical(tokens, pos + 1, Precedence::Prefix);
        },
        _ => {},
    }
}

/// What follows a canonical expression that fits the level, where the next
/// token does not bind more tightly than the expression, is canonical and
/// fits the level again, as far as it is arithmetic.
pub proof fn parsed_rest_is_canonical(
    tokens: Seq<Lexeme>,
    pos: int,
    left: ExpressionModel,
    min: Precedence,
)
    requires
        0 <= pos <= tokens.len(),
        min != Precedence::Call,
        canonical(left),
        fits(left, min),
        stops(kind_at(tokens, pos), binds(left)),
        parse_rest(tokens, pos, left, min) matches Parsed::Accepted { value, .. }
            && arithmetic_expression(value),
    ensures
        parse_rest(tokens, pos, left, min) matches Parsed::Accepted { value, next } && canonical(
            value,
        ) && fits(value, min) && stops(kind_at(tokens, next), min.rank()),
    decreases tokens.len() - pos, 1int,
{
    let kind = kind_at(tokens, pos);
    if kind == TokenKind::Eof || precedence_of(kind).rank() <= min.rank() {
    } else {
        let extended = if kind == TokenKind::LeftParen {
            crate::grammar::parse_call(tokens, pos, left)
        } else {
            parse_infix(tokens, pos, left)
        };
        crate::grammar::parse_call_advances(tokens, pos, left);
        crate::grammar::parse_infix_advances(tokens, pos, left);
        match extended {
            Parsed::Accepted { value, next } => {
                rest_keeps_left_arithmetic(tokens, next, value, min);
                assert(kind != TokenKind::LeftParen);
                parsed_expression_is_canonical(tokens, pos + 1, precedence_of(kind));
                parsed_rest_is_canonical(tokens, next, value, min);
            },
            Parsed::Rejected { .. } => {},
        }
    }
}

/// The round trip of an arithmetic expression: the tokens that spell an
/// expression which the parser has accepted, at any position of any token
/// sequence, parse to that very expression again, and to their end.
pub proof fn arithmetic_round_trip(tokens: Seq<Lexeme>, pos: int, min: Precedence)
    requires
        0 <= pos,
        min != Precedence::Call,
        parse_expression(tokens, pos, min) matches Parsed::Accepted { value, .. }
            && arithmetic_expression(value),
    ensures
        parse_expression(tokens, pos, min) matches Parsed::Accepted { value, .. }
            && parse_expression(unparse(value), 0, min) == (Parsed::Accepted {
            value,
            next: unparse(value).len() as int,
        }),
{
    parsed_expression_is_canonical(tokens, pos, min);
    let expression = parse_expression(tokens, pos, min)->value;
    let spelling = unparse(expression);
    assert(spelling.subrange(0, spelling.len() as int) =~= spelling);
    reparse_continues(expression, spelling, 0, min);
}

/// A program that is one expression statement was parsed as an expression
/// from the first token on.
pub proof fn program_of_one_expression(tokens: Seq<Lexeme>, expression: ExpressionModel)
    requires
        parse_program(tokens) == Ok::<Seq<StatementModel>, Lexeme>(
            seq![StatementModel::Expression { expression }],
        ),
    ensures
        parse_expression(tokens, 0, Precedence::Lowest) matches Parsed::Accepted { value, .. }
            && value == expression,
{
    let statement = StatementModel::Expression { expression };
    let program = seq![statement];
    let nothing = Seq::<StatementModel>::empty();
    assert(program.len() == 1);
    assert(kind_at(tokens, 0) != TokenKind::Eof);
    crate::grammar::parse_statement_advances(tokens, 0);
    crate::grammar::parse_function_advances(tokens, 0, true);
    match parse_statement(tokens, 0) {
        Parsed::Accepted { value, next } => {
            let done = nothing.push(value);
            program_extends_done(tokens, next, done);
            assert(parse_program_rest(tokens, next, done) == Ok::<Seq<StatementModel>, Lexeme>(
                program,
            ));
            assert(program.subrange(0, 1)[0] == program[0]);
            assert(done[0] == value);
            assert(value == statement);
        },
        Parsed::Rejected { .. } => {},
    }
}

/// The round trip of a program that is one arithmetic expression: the tokens
/// that spell the expression parse to that program again.
pub proof fn arithmetic_program_round_trip(tokens: Seq<Lexeme>, expression: ExpressionModel)
    requires
        parse_program(tokens) == Ok::<Seq<StatementModel>, Lexeme>(
            seq![StatementModel::Expression { expression }],
        ),
        arithmetic_expression(expression),
    ensures
        parse_program(unparse(expression)) == parse_program(tokens),
{
    let statement = StatementModel::Expression { expression };
    let program = seq![statement];
    let nothing = Seq::<StatementModel>::empty();
    program_of_one_expression(tokens, expression);
    arithmetic_round_trip(tokens, 0, Precedence::Lowest);
    let spelling = unparse(expression);
    let end = spelling.len() as int;
    unparse_starts_an_expression(expression);
    assert(kind_at(spelling, 0) == spelling[0].kind);
    assert(parse_statement(spelling, 0) == (Parsed::Accepted { value: statement, next: end }));
    assert(kind_at(spelling, end) == TokenKind::Eof);
    assert(parse_program_rest(spelling, end, nothing.push(statement)) == Ok::<
        Seq<StatementModel>,
        Lexeme,
    >(nothing.push(statement)));
    assert(nothing.push(statement) =~= program);
}

/// The statements of a program from a position on follow those that were
/// parsed before it.
proof fn program_extends_done(tokens: Seq<Lexeme>, pos: int, done: Seq<StatementModel>)
    ensures
        parse_program_rest(tokens, pos, done) matches Ok(program) ==> done.len() <= program.len()
            && program.subrange(0, done.len() as int) == done,
    decreases tokens.len() - pos,
{
    if kind_at(tokens, pos) == TokenKind::Eof {
        assert(done.subrange(0, done.len() as int) =~= done);
    } else {
        match parse_statement(tokens, pos) {
            Parsed::Accepted { value, next } => {
                if pos < next <= tokens.len() {
                    program_extends_done(tokens, next, done.push(value));
                    match parse_program_rest(tokens, next, done.push(value)) {
                        Ok(program) => {
                            assert(program.subrange(0, done.len() as int) =~= program.subrange(
                                0,
                                done.len() as int + 1,
                            ).subrange(0, done.len() as int));
                            assert(done.push(value).subrange(0, done.len() as int) =~= done);
                        },
                        Err(_) => {},
                    }
                } else {
                    assert(done.push(value).subrange(0, done.len() as int) =~= done);
                }
            },
            Parsed::Rejected { .. } => {},
        }
    }
}

/// The expressions whose numbers are numerals and whose names are proper
/// names: those that can be written down and read back.
pub open spec fn spellable(expression: ExpressionModel) -> bool
    decreases expression,
{
    match expression {
        ExpressionModel::Number(text) => numeral(text),
        ExpressionModel::Identifier(text) => proper_name(text),
        ExpressionModel::Prefix(_, operand) => spellable(*operand),
        ExpressionModel::Infix(left, _, right) => spellable(*left) && spellable(*right),
        _ => true,
    }
}

/// The source text of an arithmetic expression: the source text of the
/// tokens that spell it.
pub open spec fn source_of(expression: ExpressionModel) -> Seq<char> {
    print(unparse(expression))
}

/// Every token that spells a spellable arithmetic expression is writable.
pub proof fn unparse_is_writable(expression: ExpressionModel)
    requires
        arithmetic_expression(expression),
        spellable(expression),
    ensures
        forall|i: int| 0 <= i < unparse(expression).len() ==> writable(unparse(expression)[i]),
    decreases expression,
{
    match expression {
        ExpressionModel::Prefix(op, operand) => {
            unparse_is_writable(*operand);
            assert forall|i: int| 0 <= i < unparse(expression).len() implies writable(
                unparse(expression)[i],
            ) by {
                if i > 0 {
                    assert(unparse(expression)[i] == unparse(*operand)[i - 1]);
                }
            }
        },
        ExpressionModel::Infix(left, op, right) => {
            unparse_is_writable(*left);
            unparse_is_writable(*right);
            let first = unparse(*left);
            assert forall|i: int| 0 <= i < unparse(expression).len() implies writable(
                unparse(expression)[i],
            ) by {
                if i < first.len() {
                    assert(unparse(expression)[i] == first[i]);
                } else if i > first.len() {
                    assert(unparse(expression)[i] == unparse(*right)[i - first.len() - 1]);
                }
            }
        },
        _ => {},
    }
}

/// An arithmetic expression that is parsed from valid tokens is spellable.
pub proof fn parsed_expression_is_spellable(tokens: Seq<Lexeme>, pos: int, min: Precedence)
    requires
        0 <= pos,
        forall|i: int| 0 <= i < tokens.len() ==> valid(tokens[i]),
        parse_expression(tokens, pos, min) matches Parsed::Accepted { value, .. }
            && arithmetic_expression(value),
    ensures
        parse_expression(tokens, pos, min) matches Parsed::Accepted { value, .. } && spellable(
            value,
        ),
    decreases tokens.len() - pos, 2int,
{
    parse_prefix_advances(tokens, pos);
    match parse_prefix(tokens, pos) {
        Parsed::Accepted { value, next } => {
            rest_keeps_left_arithmetic(tokens, next, value, min);
            parsed_prefix_is_spellable(tokens, pos);
            parsed_rest_is_spellable(tokens, next, value, min);
        },
        Parsed::Rejected { .. } => {},
    }
}

/// An arithmetic primary expression that is parsed from valid tokens is
/// spellable.
pub proof fn parsed_prefix_is_spellable(tokens: Seq<Lexeme>, pos: int)
    requires
        0 <= pos,
        forall|i: int| 0 <= i < tokens.len() ==> valid(tokens[i]),
        parse_prefix(tokens, pos) matches Parsed::Accepted { value, .. } && arithmetic_expression(
            value,
        ),
    ensures
        parse_prefix(tokens, pos) matches Parsed::Accepted { value, .. } && spellable(value),
    decreases tokens.len() - pos, 1int,
{
    match kind_at(tokens, pos) {
        TokenKind::Minus | TokenKind::Bang => {
            parsed_expression_is_spellable(tokens, pos + 1, Precedence::Prefix);
        },
        TokenKind::Number | TokenKind::Identifier => {
            assert(valid(tokens[pos]));
        },
        _ => {},
    }
}

/// What follows a spellable expression is spellable again, as far as it is
/// arithmetic and parsed from valid tokens.
pub proof fn parsed_rest_is_spellable(
    tokens: Seq<Lexeme>,
    pos: int,
    left: ExpressionModel,
    min: Precedence,
)
    requires
        0 <= pos <= tokens.len(),
        forall|i: int| 0 <= i < tokens.len() ==> valid(tokens[i]),
        spellable(left),
        parse_rest(tokens, pos, left, min) matches Parsed::Accepted { value, .. }
            && arithmetic_expression(value),
    ensures
        parse_rest(tokens, pos, left, min) matches Parsed::Accepted { value, .. } && spellable(
            value,
        ),
    decreases tokens.len() - pos, 1int,
{
    let kind = kind_at(tokens, pos);
    if kind == TokenKind::Eof || precedence_of(kind).rank() <= min.rank() {
    } else {
        let extended = if kind == TokenKind::LeftParen {
            crate::grammar::parse_call(tokens, pos, left)
        } else {
            parse_infix(tokens, pos, left)
        };
        crate::grammar::parse_call_advances(tokens, pos, left);
        crate::grammar::parse_infix_advances(tokens, pos, left);
        match extended {
            Parsed::Accepted { value, next } => {
                rest_keeps_left_arithmetic(tokens, next, value, min);
                assert(kind != TokenKind::LeftParen);
                parsed_expression_is_spellable(tokens, pos + 1, precedence_of(kind));
                parsed_rest_is_spellable(tokens, next, value, min);
            },
            Parsed::Rejected { .. } => {},
        }
    }
}

/// The round trip through source text: an arithmetic expression that the
/// parser has accepted from valid tokens is written as source text from which
/// the lexer reads the tokens that spell it, and those parse to the
/// expression again.
pub proof fn arithmetic_source_round_trip(tokens: Seq<Lexeme>, pos: int, min: Precedence)
    requires
        0 <= pos,
        min != Precedence::Call,
        forall|i: int| 0 <= i < tokens.len() ==> valid(tokens[i]),
        parse_expression(tokens, pos, min) matches Parsed::Accepted { value, .. }
            && arithmetic_expression(value),
    ensures
        parse_expression(tokens, pos, min) matches Parsed::Accepted { value, .. } && tokenize(
            source_of(value),
        ) == Ok::<Seq<Lexeme>, LexError>(unparse(value)) && parse_expression(
            unparse(value),
            0,
            min,
        ) == (Parsed::Accepted { value, next: unparse(value).len() as int }),
{
    arithmetic_round_trip(tokens, pos, min);
    parsed_expression_is_spellable(tokens, pos, min);
    let expression = parse_expression(tokens, pos, min)->value;
    unparse_is_writable(expression);
    tokenize_printed(unparse(expression));
}

/// The round trip of a source text. Where a source text lexes and parses
/// to a program that is one arithmetic expression, the source text of that
/// expression lexes and parses to the same program.
pub proof fn source_round_trip(source: Seq<char>, expression: ExpressionModel)
    requires
        tokenize(source) matches Ok(tokens) && parse_program(tokens) == Ok::<
            Seq<StatementModel>,
            Lexeme,
        >(seq![StatementModel::Expression { expression }]),
        arithmetic_expression(expression),
    ensures
        tokenize(source_of(expression)) matches Ok(tokens) && parse_program(tokens) == Ok::<
            Seq<StatementModel>,
            Lexeme,
        >(seq![StatementModel::Expression { expression }]),
{
    let tokens = tokenize(source)->Ok_0;
    tokens_are_valid(source, 0);
    program_of_one_expression(tokens, expression);
    arithmetic_program_round_trip(tokens, expression);
    arithmetic_source_round_trip(tokens, 0, Precedence::Lowest);
}

/// The source text of an infix expression is the source text of the left
/// operand, the operator and a space, and the source text of the right operand;
/// that of a prefix expression is the operator and a space, and the source
/// text of the operand; that of a number or a name is its text and a space.
pub proof fn source_of_parts(expression: ExpressionModel)
    ensures
        match expression {
            ExpressionModel::Number(text) => source_of(expression) == text + seq![' '],
            ExpressionModel::Identifier(text) => source_of(expression) == text + seq![' '],
            ExpressionModel::Prefix(op, operand) => source_of(expression) == seq![
                crate::spelling::operator_char(prefix_kind(op))->0,
                ' ',
            ] + source_of(*operand),
            ExpressionModel::Infix(left, op, right) => source_of(expression) == source_of(*left)
                + seq![crate::spelling::operator_char(infix_kind(op))->0, ' '] + source_of(*right),
            _ => true,
        },
{
    let nothing = Seq::<Lexeme>::empty();
    assert(print(nothing) =~= Seq::<char>::empty());
    match expression {
        ExpressionModel::Number(text) => {
            let token = Lexeme { kind: TokenKind::Number, text };
            assert(seq![token].drop_first() =~= nothing);
            assert(source_of(expression) =~= text + seq![' ']);
        },
        ExpressionModel::Identifier(text) => {
            let token = Lexeme { kind: TokenKind::Identifier, text };
            assert(seq![token].drop_first() =~= nothing);
            assert(source_of(expression) =~= text + seq![' ']);
        },
        ExpressionModel::Prefix(op, operand) => {
            let token = Lexeme::bare(prefix_kind(op));
            print_of_concatenation(seq![token], unparse(*operand));
            assert(seq![token].drop_first() =~= nothing);
            assert(print(seq![token]) =~= seq![
                crate::spelling::operator_char(prefix_kind(op))->0,
                ' ',
            ]);
        },
        ExpressionModel::Infix(left, op, right) => {
            let token = Lexeme::bare(infix_kind(op));
            print_of_concatenation(unparse(*left) + seq![token], unparse(*right));
            print_of_concatenation(unparse(*left), seq![token]);
            assert(seq![token].drop_first() =~= nothing);
            assert(print(seq![token]) =~= seq![
                crate::spelling::operator_char(infix_kind(op))->0,
                ' ',
            ]);
        },
        _ => {},
    }
}

/// Whether an expression is arithmetic.
pub fn is_arithmetic_expression(expression: &Expression) -> (yes: bool)
    ensures
        yes == arithmetic_expression(expression@),
    decreases expression,
{
    match expression {
        Expression::Number(_) => true,
        Expression::Identifier(_) => true,
        Expression::Prefix(op, operand) => {
            match op {
                Op::Negate | Op::Not => is_arithmetic_expression(operand),
                _ => false,
            }
        },
        Expression::Infix(left, op, right) => {
            match op {
                Op::Add | Op::Subtract | Op::Multiply | Op::Divide => is_arithmetic_expression(left)
                    && is_arithmetic_expression(right),
                _ => false,
            }
        },
        _ => false,
    }
}

/// Appends the source text of an arithmetic expression to `out`.
fn write_source(expression: &Expression, out: &mut String)
    requires
        arithmetic_expression(expression@),
    ensures
        final(out)@ == old(out)@ + source_of(expression@),
    decreases expression,
{
    proof {
        source_of_parts(expression@);
    }
    match expression {
        Expression::Number(text) => {
            out.append(text.as_str());
            out.push(' ');
            assert(out@ =~= old(out)@ + (text@ + seq![' ']));
        },
        Expression::Identifier(text) => {
            out.append(text.as_str());
            out.push(' ');
            assert(out@ =~= old(out)@ + (text@ + seq![' ']));
        },
        Expression::Prefix(op, operand) => {
            let c = match op {
                Op::Not => '!',
                _ => '-',
            };
            out.push(c);
            out.push(' ');
            write_source(operand, out);
            assert(out@ =~= old(out)@ + (seq![c, ' '] + source_of(operand@)));
        },
        Expression::Infix(left, op, right) => {
            let c = match op {
                Op::Subtract => '-',
                Op::Multiply => '*',
                Op::Divide => '/',
                _ => '+',
            };
            write_source(left, out);
            out.push(c);
            out.push(' ');
            write_source(right, out);
            assert(out@ =~= old(out)@ + (source_of(left@) + seq![c, ' '] + source_of(right@)));
        },
        _ => {},
    }
}

/// The source text of an expression, if it is arithmetic: its numbers, names
/// and operators in the order in which they are written, each followed by a
/// space.
pub fn arithmetic_source(expression: &Expression) -> (source: Option<String>)
    ensures
        source is Some <==> arithmetic_expression(expression@),
        source matches Some(text) ==> text@ == source_of(expression@),
{
    if is_arithmetic_expression(expression) {
        let mut text = String::new();
        write_source(expression, &mut text);
        assert(text@ =~= source_of(expression@));
        Some(text)
    } else {
        None
    }
}

} // verus!
