//! The evaluator: it walks the syntax tree and produces values.
//!
//! Floating-point arithmetic and native functions are the host's. Where the
//! evaluator needs one of them it stops with a `Request`. The host answers
//! with `Interpreter::supply`, and `Interpreter::run` takes the statement up
//! again with the answers given so far. What the evaluator does is thus a
//! function of the program and of the host's answers.

use crate::ast::{
    expression_models, statement_models, Block, Expression, Op, Program, Statement,
};
use crate::environment::{Environment, Scope};
use crate::error::{Mismatch, RuntimeError};
use crate::semantics::{
    apply_infix, apply_prefix, arithmetic, ask_number, evaluate, evaluate_arguments, execute,
    execute_block, AnswerModel, Evaluated, RequestModel, State,
};
use crate::value::{
    clone_optional, is_truthy, kind_of_optional, optional_model, value_models, Value, ValueModel,
};
use vstd::prelude::*;

verus! {

/// What the evaluator asks of the host.
#[derive(Debug)]
pub enum Request {
    /// The number that a literal denotes: the text holds digits and at most
    /// one point.
    Literal { text: String },
    /// The result of an arithmetic operator on two numbers.
    Arithmetic { op: Op, left: u64, right: u64 },
    /// The call of a native function, with the environment at the time of the
    /// call.
    Invoke { name: String, arguments: Vec<Value>, environment: Environment },
}

/// What the host gives back.
#[derive(Debug)]
pub enum Answer {
    /// The number asked for.
    Number(u64),
    /// What a native function returned, and the environment as it left it.
    Returned { value: Option<Value>, environment: Environment },
}

impl View for Request {
    type V = RequestModel;

    open spec fn view(&self) -> RequestModel {
        match self {
            Request::Literal { text } => RequestModel::Literal { text: text@ },
            Request::Arithmetic { op, left, right } => RequestModel::Arithmetic {
                op: *op,
                left: *left,
                right: *right,
            },
            Request::Invoke { name, arguments, environment } => RequestModel::Invoke {
                name: name@,
                arguments: value_models(arguments@),
                environment: environment@,
            },
        }
    }
}

impl View for Answer {
    type V = AnswerModel;

    open spec fn view(&self) -> AnswerModel {
        match self {
            Answer::Number(bits) => AnswerModel::Number(*bits),
            Answer::Returned { value, environment } => AnswerModel::Returned {
                value: optional_model(*value),
                environment: environment@,
            },
        }
    }
}

/// The models of a list of answers, in order.
pub open spec fn answer_models(answers: Seq<Answer>) -> Seq<AnswerModel> {
    answers.map_values(|answer: Answer| answer@)
}

/// How an evaluation ends: with a result, with a runtime error, or with a
/// request to the host.
#[derive(Debug)]
pub enum Outcome<T> {
    Done(T),
    Failed(RuntimeError),
    Pending(Request),
}

/// Whether `outcome`, with the environment and the number of answers taken
/// that evaluation left behind, is what the semantics' `evaluated` asks for:
/// the same result, error or request, and the state that was reached.
pub open spec fn evaluated_as<T, M>(
    outcome: Outcome<T>,
    evaluated: Evaluated<M>,
    environment: Scope,
    taken: nat,
    model: spec_fn(T) -> M,
) -> bool {
    &&& environment == evaluated.reached().environment
    &&& taken == evaluated.reached().taken
    &&& match evaluated {
        Evaluated::Done { value, .. } => outcome matches Outcome::Done(result) && model(result)
            == value,
        Evaluated::Failed { error, .. } => outcome matches Outcome::Failed(failure) && failure@
            == error,
        Evaluated::Pending { request, .. } => outcome matches Outcome::Pending(asked) && asked@
            == request,
    }
}

/// Whether an operator takes two numbers and gives a number.
fn is_arithmetic(op: Op) -> (yes: bool)
    ensures
        yes == arithmetic(op),
{
    match op {
        Op::Add | Op::Subtract | Op::Multiply | Op::Divide | Op::Modulo => true,
        _ => false,
    }
}

/// Takes the next answer if it is a number; else asks for it.
fn take_number(
    request: Request,
    answers: &Vec<Answer>,
    taken: &mut usize,
    Ghost(environment): Ghost<Scope>,
) -> (outcome: Outcome<Option<Value>>)
    ensures
        evaluated_as(
            outcome,
            ask_number(
                request@,
                answer_models(answers@),
                State { environment, taken: *old(taken) as nat },
            ),
            environment,
            *final(taken) as nat,
            |value: Option<Value>| optional_model(value),
        ),
{
    if *taken < answers.len() {
        if let Answer::Number(bits) = &answers[*taken] {
            *taken = *taken + 1;
            return Outcome::Done(Some(Value::Number(*bits)));
        }
    }
    Outcome::Pending(request)
}

/// Applies a binary operator to two values.
fn infix(
    op: Op,
    left: Option<Value>,
    right: Option<Value>,
    answers: &Vec<Answer>,
    taken: &mut usize,
    Ghost(environment): Ghost<Scope>,
) -> (outcome: Outcome<Option<Value>>)
    ensures
        evaluated_as(
            outcome,
            apply_infix(
                op,
                optional_model(left),
                optional_model(right),
                answer_models(answers@),
                State { environment, taken: *old(taken) as nat },
            ),
            environment,
            *final(taken) as nat,
            |value: Option<Value>| optional_model(value),
        ),
{
    if is_arithmetic(op) {
        if let Some(Value::Number(l)) = &left {
            if let Some(Value::Number(r)) = &right {
                return take_number(
                    Request::Arithmetic { op, left: *l, right: *r },
                    answers,
                    taken,
                    Ghost(environment),
                );
            }
        }
    }
    Outcome::Failed(
        RuntimeError::TypeMismatch(
            Mismatch::Operands {
                op,
                left: kind_of_optional(&left),
                right: kind_of_optional(&right),
            },
        ),
    )
}

/// Applies a unary operator to a value.
fn prefix(op: Op, operand: Option<Value>) -> (result: Result<Option<Value>, RuntimeError>)
    ensures
        match apply_prefix(op, optional_model(operand)) {
            Ok(value) => result matches Ok(applied) && optional_model(applied) == value,
            Err(error) => result matches Err(failure) && failure@ == error,
        },
{
    match op {
        Op::Not => Ok(Some(Value::truth(!is_truthy(&operand)))),
        Op::Negate => {
            if let Some(Value::Number(bits)) = &operand {
                Ok(Some(Value::Number(Value::negate(*bits))))
            } else {
                Err(
                    RuntimeError::TypeMismatch(
                        Mismatch::Operand { op, operand: kind_of_optional(&operand) },
                    ),
                )
            }
        },
        _ => Err(
            RuntimeError::TypeMismatch(
                Mismatch::Operand { op, operand: kind_of_optional(&operand) },
            ),
        ),
    }
}

/// Evaluates an expression in `environment`, with the answers of the host
/// from the one at `taken` on.
#[verifier::loop_isolation(false)]
pub fn run_expression(
    expression: &Expression,
    globals: &Environment,
    answers: &Vec<Answer>,
    environment: &mut Environment,
    taken: &mut usize,
) -> (outcome: Outcome<Option<Value>>)
    ensures
        evaluated_as(
            outcome,
            evaluate(
                expression@,
                globals@,
                answer_models(answers@),
                State { environment: old(environment)@, taken: *old(taken) as nat },
            ),
            final(environment)@,
            *final(taken) as nat,
            |value: Option<Value>| optional_model(value),
        ),
    decreases expression,
{
    match expression {
        Expression::Number(text) => take_number(
            Request::Literal { text: text.clone() },
            answers,
            taken,
            Ghost(environment@),
        ),
        Expression::String(text) => Outcome::Done(Some(Value::String(text.clone()))),
        Expression::InterpolatedString(text) => Outcome::Done(Some(Value::String(text.clone()))),
        Expression::Bool(truth) => Outcome::Done(Some(Value::truth(*truth))),
        Expression::Identifier(name) => {
            if globals.contains(name) {
                match globals.get(name) {
                    Ok(value) => Outcome::Done(value),
                    Err(error) => Outcome::Failed(error),
                }
            } else {
                match environment.get(name) {
                    Ok(value) => Outcome::Done(value),
                    Err(error) => Outcome::Failed(error),
                }
            }
        },
        Expression::Infix(left, op, right) => {
            let left = match run_expression(left, globals, answers, environment, taken) {
                Outcome::Done(value) => value,
                Outcome::Failed(error) => {
                    return Outcome::Failed(error);
                },
                Outcome::Pending(request) => {
                    return Outcome::Pending(request);
                },
            };
            let right = match run_expression(right, globals, answers, environment, taken) {
                Outcome::Done(value) => value,
                Outcome::Failed(error) => {
                    return Outcome::Failed(error);
                },
                Outcome::Pending(request) => {
                    return Outcome::Pending(request);
                },
            };
            infix(*op, left, right, answers, taken, Ghost(environment@))
        },
        Expression::Prefix(op, operand) => {
            let operand = match run_expression(operand, globals, answers, environment, taken) {
                Outcome::Done(value) => value,
                Outcome::Failed(error) => {
                    return Outcome::Failed(error);
                },
                Outcome::Pending(request) => {
                    return Outcome::Pending(request);
                },
            };
            match prefix(*op, operand) {
                Ok(value) => Outcome::Done(value),
                Err(error) => Outcome::Failed(error),
            }
        },
        Expression::Call(callee, arguments) => {
            proof {
                expression.model_of_call();
            }
            let callable = match run_expression(callee, globals, answers, environment, taken) {
                Outcome::Done(value) => value,
                Outcome::Failed(error) => {
                    return Outcome::Failed(error);
                },
                Outcome::Pending(request) => {
                    return Outcome::Pending(request);
                },
            };
            let name = match callable {
                Some(Value::NativeFunction { name }) => name,
                other => {
                    return Outcome::Failed(RuntimeError::NotCallable(kind_of_optional(&other)));
                },
            };
            let ghost models = expression_models(arguments@);
            let ghost called = State { environment: environment@, taken: *taken as nat };
            let mut values: Vec<Value> = Vec::new();
            let mut index: usize = 0;
            assert(value_models(values@) =~= Seq::<ValueModel>::empty());
            while index < arguments.len()
                invariant
                    index <= arguments.len(),
                    models == expression_models(arguments@),
                    evaluate_arguments(
                        models,
                        index as nat,
                        value_models(values@),
                        globals@,
                        answer_models(answers@),
                        State { environment: environment@, taken: *taken as nat },
                    ) == evaluate_arguments(
                        models,
                        0,
                        Seq::empty(),
                        globals@,
                        answer_models(answers@),
                        called,
                    ),
                decreases arguments.len() - index,
            {
                let ghost done = value_models(values@);
                proof {
                    vstd::std_specs::vec::axiom_vec_index_decreases(*arguments, index as int);
                }
                match run_expression(&arguments[index], globals, answers, environment, taken) {
                    Outcome::Done(Some(value)) => {
                        values.push(value);
                        assert(value_models(values@) =~= done.push(value@));
                    },
                    Outcome::Done(None) => {
                        return Outcome::Failed(
                            RuntimeError::TypeMismatch(Mismatch::UnassignedArgument),
                        );
                    },
                    Outcome::Failed(error) => {
                        return Outcome::Failed(error);
                    },
                    Outcome::Pending(request) => {
                        return Outcome::Pending(request);
                    },
                }
                index += 1;
            }
            if *taken < answers.len() {
                if let Answer::Returned { value, environment: left_behind } = &answers[*taken] {
                    *environment = left_behind.clone();
                    *taken = *taken + 1;
                    return Outcome::Done(clone_optional(value));
                }
            }
            Outcome::Pending(
                Request::Invoke { name, arguments: values, environment: environment.clone() },
            )
        },
        Expression::Closure(..) => Outcome::Failed(RuntimeError::TypeMismatch(Mismatch::Function)),
    }
}

/// Runs a statement in `environment`, with the answers of the host from the
/// one at `taken` on.
pub fn run_statement(
    statement: &Statement,
    globals: &Environment,
    answers: &Vec<Answer>,
    environment: &mut Environment,
    taken: &mut usize,
) -> (outcome: Outcome<()>)
    ensures
        evaluated_as(
            outcome,
            execute(
                statement@,
                globals@,
                answer_models(answers@),
                State { environment: old(environment)@, taken: *old(taken) as nat },
            ),
            final(environment)@,
            *final(taken) as nat,
            |unit: ()| (),
        ),
    decreases statement, 0int,
{
    match statement {
        Statement::LetDeclaration { name, initial } => {
            let value = match initial {
                None => None,
                Some(initial) => match run_expression(
                    initial,
                    globals,
                    answers,
                    environment,
                    taken,
                ) {
                    Outcome::Done(value) => value,
                    Outcome::Failed(error) => {
                        return Outcome::Failed(error);
                    },
                    Outcome::Pending(request) => {
                        return Outcome::Pending(request);
                    },
                },
            };
            environment.set(name.clone(), value);
            Outcome::Done(())
        },
        Statement::Expression { expression } => {
            match run_expression(expression, globals, answers, environment, taken) {
                Outcome::Done(_) => Outcome::Done(()),
                Outcome::Failed(error) => Outcome::Failed(error),
                Outcome::Pending(request) => Outcome::Pending(request),
            }
        },
        Statement::If { condition, consequent, otherwise } => {
            proof {
                statement.model_of_if();
            }
            let value = match run_expression(condition, globals, answers, environment, taken) {
                Outcome::Done(value) => value,
                Outcome::Failed(error) => {
                    return Outcome::Failed(error);
                },
                Outcome::Pending(request) => {
                    return Outcome::Pending(request);
                },
            };
            if is_truthy(&value) {
                run_block(consequent, globals, answers, environment, taken)
            } else {
                match otherwise {
                    Some(block) => run_block(block, globals, answers, environment, taken),
                    None => Outcome::Done(()),
                }
            }
        },
        Statement::FunctionDeclaration { .. } => Outcome::Failed(
            RuntimeError::TypeMismatch(Mismatch::Function),
        ),
    }
}

/// Runs the statements of a block in order, in `environment`.
#[verifier::loop_isolation(false)]
pub fn run_block(
    block: &Block,
    globals: &Environment,
    answers: &Vec<Answer>,
    environment: &mut Environment,
    taken: &mut usize,
) -> (outcome: Outcome<()>)
    ensures
        evaluated_as(
            outcome,
            execute_block(
                statement_models(block@),
                0,
                globals@,
                answer_models(answers@),
                State { environment: old(environment)@, taken: *old(taken) as nat },
            ),
            final(environment)@,
            *final(taken) as nat,
            |unit: ()| (),
        ),
    decreases block, 1int,
{
    let ghost models = statement_models(block@);
    let ghost entered = State { environment: environment@, taken: *taken as nat };
    let mut index: usize = 0;
    while index < block.len()
        invariant
            index <= block.len(),
            execute_block(
                models,
                index as nat,
                globals@,
                answer_models(answers@),
                State { environment: environment@, taken: *taken as nat },
            ) == execute_block(models, 0, globals@, answer_models(answers@), entered),
        decreases block.len() - index,
    {
        proof {
            vstd::std_specs::vec::axiom_vec_index_decreases(*block, index as int);
        }
        match run_statement(&block[index], globals, answers, environment, taken) {
            Outcome::Done(_) => {},
            Outcome::Failed(error) => {
                return Outcome::Failed(error);
            },
            Outcome::Pending(request) => {
                return Outcome::Pending(request);
            },
        }
        index += 1;
    }
    Outcome::Done(())
}

/// How a run of the interpreter ends.
#[derive(Debug)]
pub enum Progress {
    /// Every statement of the program has run.
    Finished,
    /// A statement was aborted by a runtime error. The statements before it
    /// have run; it and those after it have not.
    Failed(RuntimeError),
    /// A statement needs an answer from the host.
    Pending(Request),
}

/// The mathematical model of a `Progress`.
pub enum ProgressModel {
    Finished,
    Failed(crate::error::RuntimeErrorModel),
    Pending(RequestModel),
}

impl View for Progress {
    type V = ProgressModel;

    open spec fn view(&self) -> ProgressModel {
        match self {
            Progress::Finished => ProgressModel::Finished,
            Progress::Failed(error) => ProgressModel::Failed(error@),
            Progress::Pending(request) => ProgressModel::Pending(request@),
        }
    }
}

/// The mathematical model of an interpreter.
pub struct Session {
    /// The program.
    pub program: Seq<crate::ast::StatementModel>,
    /// The number of statements that have run.
    pub cursor: nat,
    /// The environment that those statements left behind.
    pub environment: Scope,
    /// The table of native functions and constants.
    pub globals: Scope,
    /// The answers that the host has given.
    pub answers: Seq<AnswerModel>,
    /// The number of answers that the statements that have run have taken.
    pub consumed: nat,
}

/// The run of a session: its statements run in order, each from the
/// environment and the answers that the one before it left, until the program
/// ends, a statement fails, or a statement needs an answer that is not there.
/// A statement that does not run to its end leaves the session as it was.
pub open spec fn run_session(session: Session) -> (Session, ProgressModel)
    decreases session.program.len() - session.cursor,
{
    if session.cursor >= session.program.len() {
        (session, ProgressModel::Finished)
    } else {
        match execute(
            session.program[session.cursor as int],
            session.globals,
            session.answers,
            State { environment: session.environment, taken: session.consumed },
        ) {
            Evaluated::Done { state, .. } => run_session(
                Session {
                    cursor: session.cursor + 1,
                    environment: state.environment,
                    consumed: state.taken,
                    ..session
                },
            ),
            Evaluated::Failed { error, .. } => (session, ProgressModel::Failed(error)),
            Evaluated::Pending { request, .. } => (session, ProgressModel::Pending(request)),
        }
    }
}

/// A run that has finished or failed is settled: further answers of the
/// host change neither how far it got nor how it ended.
pub proof fn run_is_settled(session: Session, more: Seq<AnswerModel>)
    requires
        session.consumed <= session.answers.len(),
    ensures
        !(run_session(session).1 is Pending) ==> run_session(
            Session { answers: session.answers + more, ..session },
        ) == (
            Session { answers: session.answers + more, ..run_session(session).0 },
            run_session(session).1,
        ),
    decreases session.program.len() - session.cursor,
{
    if session.cursor < session.program.len() {
        let state = State { environment: session.environment, taken: session.consumed };
        crate::semantics::execution_is_settled(
            session.program[session.cursor as int],
            session.globals,
            session.answers,
            more,
            state,
        );
        if let Evaluated::Done { state: after, .. } = execute(
            session.program[session.cursor as int],
            session.globals,
            session.answers,
            state,
        ) {
            run_is_settled(
                Session {
                    cursor: session.cursor + 1,
                    environment: after.environment,
                    consumed: after.taken,
                    ..session
                },
                more,
            );
        }
    }
}

/// An interpreter: a program, the environment of its run, the table of
/// globals and the answers of the host.
pub struct Interpreter {
    ast: Program,
    cursor: usize,
    environment: Environment,
    globals: Environment,
    answers: Vec<Answer>,
    consumed: usize,
}

impl View for Interpreter {
    type V = Session;

    closed spec fn view(&self) -> Session {
        Session {
            program: statement_models(self.ast@),
            cursor: self.cursor as nat,
            environment: self.environment@,
            globals: self.globals@,
            answers: answer_models(self.answers@),
            consumed: self.consumed as nat,
        }
    }
}

impl Interpreter {
    /// An interpreter at the start of `ast`, with nothing declared.
    pub fn new(ast: Program) -> (interpreter: Interpreter)
        ensures
            interpreter@ == (Session {
                program: statement_models(ast@),
                cursor: 0,
                environment: Scope::empty(),
                globals: Scope::empty(),
                answers: Seq::empty(),
                consumed: 0,
            }),
    {
        let interpreter = Interpreter {
            ast,
            cursor: 0,
            environment: Environment::new(),
            globals: Environment::new(),
            answers: Vec::new(),
            consumed: 0,
        };
        assert(answer_models(interpreter.answers@) =~= Seq::<AnswerModel>::empty());
        interpreter
    }

    /// Enters a native function into the table of globals, under its name.
    /// Calling it is the host's part: the call reaches the host as a request.
    pub fn define_global_function(&mut self, name: String)
        ensures
            final(self)@ == (Session {
                globals: old(self)@.globals.insert(
                    name@,
                    Some(ValueModel::NativeFunction { name: name@ }),
                ),
                ..old(self)@
            }),
    {
        let function = Value::NativeFunction { name: name.clone() };
        self.globals.set(name, Some(function));
    }

    /// The environment that the statements that have run left behind.
    pub fn env(&self) -> (environment: &Environment)
        ensures
            environment@ == self@.environment,
    {
        &self.environment
    }

    /// Gives the interpreter the host's next answer. An answer that does not
    /// fit the request that it is given for is never taken: the request stays
    /// pending.
    pub fn supply(&mut self, answer: Answer)
        ensures
            final(self)@ == (Session { answers: old(self)@.answers.push(answer@), ..old(self)@ }),
    {
        self.answers.push(answer);
        assert(answer_models(self.answers@) =~= answer_models(old(self).answers@).push(answer@));
    }

    /// Runs the program on from the first statement that has not run.
    pub fn run(&mut self) -> (progress: Progress)
        ensures
            (final(self)@, progress@) == run_session(old(self)@),
    {
        loop
            invariant
                run_session(self@) == run_session(old(self)@),
            decreases self.ast.len() - self.cursor,
        {
            if self.cursor >= self.ast.len() {
                return Progress::Finished;
            }
            let mut environment = self.environment.clone();
            let mut taken = self.consumed;
            match run_statement(
                &self.ast[self.cursor],
                &self.globals,
                &self.answers,
                &mut environment,
                &mut taken,
            ) {
                Outcome::Done(_) => {
                    self.environment = environment;
                    self.consumed = taken;
                    self.cursor = self.cursor + 1;
                },
                Outcome::Failed(error) => {
                    return Progress::Failed(error);
                },
                Outcome::Pending(request) => {
                    return Progress::Pending(request);
                },
            }
        }
    }
}

/// Starts the interpretation of a program in which `println` names a native
/// function: the interpreter, and how far its first run got.
pub fn interpret(ast: Program) -> (started: (Interpreter, Progress))
    ensures
        (started.0@, started.1@) == run_session(
            Session {
                program: statement_models(ast@),
                cursor: 0,
                environment: Scope::empty(),
                globals: Scope::empty().insert(
                    "println"@,
                    Some(ValueModel::NativeFunction { name: "println"@ }),
                ),
                answers: Seq::empty(),
                consumed: 0,
            },
        ),
{
    let mut interpreter = Interpreter::new(ast);
    interpreter.define_global_function(String::from_str("println"));
    let progress = interpreter.run();
    (interpreter, progress)
}

} // verus!
