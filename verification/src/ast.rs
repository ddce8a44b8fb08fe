//! The syntax tree: statements and expressions, and their mathematical models.

use vstd::prelude::*;

verus! {

/// A program is a sequence of statements, run in order.
pub type Program = Vec<Statement>;

/// A block is a sequence of statements between braces, run in order.
pub type Block = Vec<Statement>;

/// A name.
pub type Identifier = String;

/// The operators. Binary and unary operators share one set of tags; the node
/// that holds the tag says how many operands it has.
#[derive(Debug, Clone, Copy, PartialEq, Eq, Structural)]
pub enum Op {
    Add,
    Subtract,
    Multiply,
    Divide,
    Modulo,
    Negate,
    Not,
}

/// A formal parameter of a function or closure.
#[derive(Debug, PartialEq)]
pub struct Parameter {
    pub name: String,
}

impl Clone for Parameter {
    fn clone(&self) -> (copy: Self)
        ensures
            copy == *self,
    {
        Parameter { name: self.name.clone() }
    }
}

impl View for Parameter {
    type V = Seq<char>;

    open spec fn view(&self) -> Seq<char> {
        self.name@
    }
}

/// A statement.
#[derive(Debug, PartialEq)]
pub enum Statement {
    FunctionDeclaration { name: Identifier, params: Vec<Parameter>, body: Block },
    LetDeclaration { name: Identifier, initial: Option<Expression> },
    If { condition: Expression, consequent: Block, otherwise: Option<Block> },
    Expression { expression: Expression },
}

/// An expression. A number is kept as the text of its literal: digits,
/// optionally followed by a point and more digits.
#[derive(Debug, PartialEq)]
pub enum Expression {
    Number(String),
    String(String),
    InterpolatedString(String),
    Bool(bool),
    Identifier(Identifier),
    Infix(Box<Expression>, Op, Box<Expression>),
    Prefix(Op, Box<Expression>),
    Call(Box<Expression>, Vec<Expression>),
    Closure(Vec<Parameter>, Vec<Statement>),
}

/// The mathematical model of a statement.
pub enum StatementModel {
    FunctionDeclaration { name: Seq<char>, params: Seq<Seq<char>>, body: Seq<StatementModel> },
    LetDeclaration { name: Seq<char>, initial: Option<ExpressionModel> },
    If {
        condition: ExpressionModel,
        consequent: Seq<StatementModel>,
        otherwise: Option<Seq<StatementModel>>,
    },
    Expression { expression: ExpressionModel },
}

/// The mathematical model of an expression.
pub enum ExpressionModel {
    Number(Seq<char>),
    String(Seq<char>),
    InterpolatedString(Seq<char>),
    Bool(bool),
    Identifier(Seq<char>),
    Infix(Box<ExpressionModel>, Op, Box<ExpressionModel>),
    Prefix(Op, Box<ExpressionModel>),
    Call(Box<ExpressionModel>, Seq<ExpressionModel>),
    Closure(Seq<Seq<char>>, Seq<StatementModel>),
}

/// The names of a list of parameters, in order.
pub open spec fn parameter_names(params: Seq<Parameter>) -> Seq<Seq<char>> {
    Seq::new(params.len(), |i: int| params[i]@)
}

/// The models of a list of expressions, in order.
pub open spec fn expression_models(expressions: Seq<Expression>) -> Seq<ExpressionModel> {
    Seq::new(expressions.len(), |i: int| expressions[i].model())
}

/// The models of a list of statements, in order.
pub open spec fn statement_models(statements: Seq<Statement>) -> Seq<StatementModel> {
    Seq::new(statements.len(), |i: int| statements[i].model())
}

impl Statement {
    /// The model of this statement.
    pub open spec fn model(&self) -> StatementModel
        decreases self,
    {
        match self {
            Statement::FunctionDeclaration { name, params, body } => {
                StatementModel::FunctionDeclaration {
                    name: name@,
                    params: parameter_names(params@),
                    body: Seq::new(
                        body.len() as nat,
                        |i: int|
                            if 0 <= i < body.len() {
                                body[i].model()
                            } else {
                                arbitrary()
                            },
                    ),
                }
            },
            Statement::LetDeclaration { name, initial } => StatementModel::LetDeclaration {
                name: name@,
                initial: match initial {
                    Some(expression) => Some(expression.model()),
                    None => None,
                },
            },
            Statement::If { condition, consequent, otherwise } => StatementModel::If {
                condition: condition.model(),
                consequent: Seq::new(
                    consequent.len() as nat,
                    |i: int|
                        if 0 <= i < consequent.len() {
                            consequent[i].model()
                        } else {
                            arbitrary()
                        },
                ),
                otherwise: match otherwise {
                    Some(block) => Some(
                        Seq::new(
                            block.len() as nat,
                            |i: int|
                                if 0 <= i < block.len() {
                                    block[i].model()
                                } else {
                                    arbitrary()
                                },
                        ),
                    ),
                    None => None,
                },
            },
            Statement::Expression { expression } => StatementModel::Expression {
                expression: expression.model(),
            },
        }
    }

    /// The model of a function declaration holds the models of its parts.
    pub proof fn model_of_function(self)
        requires
            self is FunctionDeclaration,
        ensures
            self.model() == (StatementModel::FunctionDeclaration {
                name: self->FunctionDeclaration_name@,
                params: parameter_names(self->params@),
                body: statement_models(self->body@),
            }),
    {
        assert(self.model()->body =~= statement_models(self->body@));
    }

    /// The model of a conditional holds the models of its parts.
    pub proof fn model_of_if(self)
        requires
            self is If,
        ensures
            self.model() == (StatementModel::If {
                condition: self->condition.model(),
                consequent: statement_models(self->consequent@),
                otherwise: match self->otherwise {
                    Some(block) => Some(statement_models(block@)),
                    None => None,
                },
            }),
    {
        assert(self.model()->consequent =~= statement_models(self->consequent@));
        match self->otherwise {
            Some(block) => {
                assert(self.model()->otherwise->0 =~= statement_models(block@));
            },
            None => {},
        }
    }
}

impl View for Statement {
    type V = StatementModel;

    open spec fn view(&self) -> StatementModel {
        self.model()
    }
}

impl Expression {
    /// The model of this expression.
    pub open spec fn model(&self) -> ExpressionModel
        decreases self,
    {
        match self {
            Expression::Number(text) => ExpressionModel::Number(text@),
            Expression::String(text) => ExpressionModel::String(text@),
            Expression::InterpolatedString(text) => ExpressionModel::InterpolatedString(text@),
            Expression::Bool(value) => ExpressionModel::Bool(*value),
            Expression::Identifier(name) => ExpressionModel::Identifier(name@),
            Expression::Infix(left, op, right) => ExpressionModel::Infix(
                Box::new(left.model()),
                *op,
                Box::new(right.model()),
            ),
            Expression::Prefix(op, operand) => ExpressionModel::Prefix(
                *op,
                Box::new(operand.model()),
            ),
            Expression::Call(callee, arguments) => ExpressionModel::Call(
                Box::new(callee.model()),
                Seq::new(
                    arguments.len() as nat,
                    |i: int|
                        if 0 <= i < arguments.len() {
                            arguments[i].model()
                        } else {
                            arbitrary()
                        },
                ),
            ),
            Expression::Closure(params, body) => ExpressionModel::Closure(
                parameter_names(params@),
                Seq::new(
                    body.len() as nat,
                    |i: int|
                        if 0 <= i < body.len() {
                            body[i].model()
                        } else {
                            arbitrary()
                        },
                ),
            ),
        }
    }

    /// The model of a call holds the models of the callee and the arguments.
    pub proof fn model_of_call(self)
        requires
            self is Call,
        ensures
            self.model() == ExpressionModel::Call(
                Box::new(self->Call_0.model()),
                expression_models(self->Call_1@),
            ),
    {
        assert(self.model()->Call_1 =~= expression_models(self->Call_1@));
    }

    /// The model of a closure holds the models of its parts.
    pub proof fn model_of_closure(self)
        requires
            self is Closure,
        ensures
            self.model() == ExpressionModel::Closure(
                parameter_names(self->Closure_0@),
                statement_models(self->Closure_1@),
            ),
    {
        assert(self.model()->Closure_1 =~= statement_models(self->Closure_1@));
    }

    /// This expression as an optional one.
    pub fn some(self) -> (wrapped: Option<Self>)
        ensures
            wrapped == Some(self),
    {
        Some(self)
    }

    /// This expression on the heap, ready to be the child of another.
    pub fn boxed(self) -> (child: Box<Self>)
        ensures
            *child == self,
    {
        Box::new(self)
    }

    /// The text of an identifier or of a string literal.
    pub fn string(self) -> (text: String)
        requires
            self is Identifier || self is String,
        ensures
            self matches Expression::Identifier(name) ==> text == name,
            self matches Expression::String(content) ==> text == content,
    {
        match self {
            Expression::Identifier(text) => text,
            Expression::String(text) => text,
            _ => {
                proof {
                    assert(false);
                }
                String::new()
            },
        }
    }
}

impl View for Expression {
    type V = ExpressionModel;

    open spec fn view(&self) -> ExpressionModel {
        self.model()
    }
}

} // verus!
