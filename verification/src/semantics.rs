//! What a program means: the result of evaluation as a function of the
//! program and of the answers that the host gives.
//!
//! The evaluator does no floating-point arithmetic and runs no native function
//! itself. Where it needs either, it needs an answer from the host. The
//! answers form a sequence, taken in the order in which they are needed.
//! Evaluation with too few answers ends with the request that the next answer
//! must meet; so does evaluation with an answer that does not fit its request.

use crate::ast::{ExpressionModel, Op, StatementModel};
use crate::environment::Scope;
use crate::error::{Mismatch, RuntimeErrorModel};
use crate::value::{kind_of, negated_bits, truth_bits, truthy, ValueKind, ValueModel};
use vstd::prelude::*;

verus! {

/// What the evaluator asks of the host.
pub enum RequestModel {
    /// The number that a literal denotes.
    Literal { text: Seq<char> },
    /// The result of an arithmetic operator on two numbers.
    Arithmetic { op: Op, left: u64, right: u64 },
    /// The call of a native function in a given environment.
    Invoke { name: Seq<char>, arguments: Seq<ValueModel>, environment: Scope },
}

/// What the host gives back.
pub enum AnswerModel {
    /// The number asked for.
    Number(u64),
    /// What a native function returned, and the environment as it left it.
    Returned { value: Option<ValueModel>, environment: Scope },
}

/// The state of evaluation: the environment, and how many of the host's
/// answers were taken.
pub struct State {
    pub environment: Scope,
    pub taken: nat,
}

/// How evaluation ends, and the state that it has reached by then.
pub enum Evaluated<T> {
    /// With a result.
    Done { value: T, state: State },
    /// With a runtime error. What was evaluated before the error has had its
    /// effect on the state; the failing step itself has had none.
    Failed { error: RuntimeErrorModel, state: State },
    /// With a request to the host, for want of an answer. What was evaluated
    /// before the request has had its effect on the state.
    Pending { request: RequestModel, state: State },
}

impl<T> Evaluated<T> {
    /// The state that the evaluation has reached.
    pub open spec fn reached(self) -> State {
        match self {
            Evaluated::Done { state, .. } => state,
            Evaluated::Failed { state, .. } => state,
            Evaluated::Pending { state, .. } => state,
        }
    }
}

/// The next answer if it is a number.
pub open spec fn number_answer(answers: Seq<AnswerModel>, taken: nat) -> Option<u64> {
    if taken < answers.len() && answers[taken as int] is Number {
        Some(answers[taken as int]->Number_0)
    } else {
        None
    }
}

/// The next answer if it is the return of a native function.
pub open spec fn return_answer(answers: Seq<AnswerModel>, taken: nat) -> Option<AnswerModel> {
    if taken < answers.len() && answers[taken as int] is Returned {
        Some(answers[taken as int])
    } else {
        None
    }
}

/// The operators that take two numbers and give a number.
pub open spec fn arithmetic(op: Op) -> bool {
    op == Op::Add || op == Op::Subtract || op == Op::Multiply || op == Op::Divide || op
        == Op::Modulo
}

/// The number that the host gives for `request`, as the result of
/// evaluation.
pub open spec fn ask_number(request: RequestModel, answers: Seq<AnswerModel>, state: State) -> Evaluated<
    Option<ValueModel>,
> {
    match number_answer(answers, state.taken) {
        Some(bits) => Evaluated::Done {
            value: Some(ValueModel::Number(bits)),
            state: State { environment: state.environment, taken: state.taken + 1 },
        },
        None => Evaluated::Pending { request, state },
    }
}

/// A binary operator applied to two values. Arithmetic on two numbers is
/// the host's; every other combination is a mismatch.
pub open spec fn apply_infix(
    op: Op,
    left: Option<ValueModel>,
    right: Option<ValueModel>,
    answers: Seq<AnswerModel>,
    state: State,
) -> Evaluated<Option<ValueModel>> {
    match (left, right) {
        (Some(ValueModel::Number(l)), Some(ValueModel::Number(r))) if arithmetic(op) => ask_number(
            RequestModel::Arithmetic { op, left: l, right: r },
            answers,
            state,
        ),
        _ => Evaluated::Failed {
            error: RuntimeErrorModel::TypeMismatch(
                Mismatch::Operands { op, left: kind_of(left), right: kind_of(right) },
            ),
            state,
        },
    }
}

/// A unary operator applied to a value. Negation changes the sign of a
/// number; `Not` gives the number that stands for the opposite of the
/// operand's truth. Everything else is a mismatch.
pub open spec fn apply_prefix(op: Op, operand: Option<ValueModel>) -> Result<
    Option<ValueModel>,
    RuntimeErrorModel,
> {
    match (op, operand) {
        (Op::Negate, Some(ValueModel::Number(bits))) => Ok(
            Some(ValueModel::Number(negated_bits(bits))),
        ),
        (Op::Not, _) => Ok(Some(ValueModel::Number(truth_bits(!truthy(operand))))),
        _ => Err(
            RuntimeErrorModel::TypeMismatch(Mismatch::Operand { op, operand: kind_of(operand) }),
        ),
    }
}

/// What a name stands for: a global if there is one of that name, else what
/// the environment holds for it.
pub open spec fn resolve(name: Seq<char>, globals: Scope, environment: Scope) -> Result<
    Option<ValueModel>,
    RuntimeErrorModel,
> {
    if globals.contains_key(name) {
        Ok(globals[name])
    } else if environment.contains_key(name) {
        Ok(environment[name])
    } else {
        Err(RuntimeErrorModel::UndefinedVariable(name))
    }
}

/// The call of `callee`, which is a native function, with the given
/// arguments: the host's.
pub open spec fn invoke(
    name: Seq<char>,
    arguments: Seq<ValueModel>,
    answers: Seq<AnswerModel>,
    state: State,
) -> Evaluated<Option<ValueModel>> {
    match return_answer(answers, state.taken) {
        Some(AnswerModel::Returned { value, environment }) => Evaluated::Done {
            value,
            state: State { environment, taken: state.taken + 1 },
        },
        _ => Evaluated::Pending {
            request: RequestModel::Invoke { name, arguments, environment: state.environment },
            state,
        },
    }
}

/// The value of an expression.
///
/// A literal stands for itself, a number through the host. A truth value is
/// the number one or zero. A name is resolved. The operands of an operator
/// are evaluated from left to right, then the operator is applied. The callee
/// of a call is evaluated first and must be a native function; then the
/// arguments are evaluated from left to right, and the function is called. A
/// closure has no value.
pub open spec fn evaluate(
    expression: ExpressionModel,
    globals: Scope,
    answers: Seq<AnswerModel>,
    state: State,
) -> Evaluated<Option<ValueModel>>
    decreases expression, 0int,
{
    match expression {
        ExpressionModel::Number(text) => ask_number(
            RequestModel::Literal { text },
            answers,
            state,
        ),
        ExpressionModel::String(text) => Evaluated::Done {
            value: Some(ValueModel::String(text)),
            state,
        },
        ExpressionModel::InterpolatedString(text) => Evaluated::Done {
            value: Some(ValueModel::String(text)),
            state,
        },
        ExpressionModel::Bool(truth) => Evaluated::Done {
            value: Some(ValueModel::Number(truth_bits(truth))),
            state,
        },
        ExpressionModel::Identifier(name) => match resolve(name, globals, state.environment) {
            Ok(value) => Evaluated::Done { value, state },
            Err(error) => Evaluated::Failed { error, state },
        },
        ExpressionModel::Infix(left, op, right) => match evaluate(*left, globals, answers, state) {
            Evaluated::Done { value: left, state } => match evaluate(
                *right,
                globals,
                answers,
                state,
            ) {
                Evaluated::Done { value: right, state } => apply_infix(
                    op,
                    left,
                    right,
                    answers,
                    state,
                ),
                stopped => stopped,
            },
            stopped => stopped,
        },
        ExpressionModel::Prefix(op, operand) => match evaluate(*operand, globals, answers, state) {
            Evaluated::Done { value, state } => match apply_prefix(op, value) {
                Ok(value) => Evaluated::Done { value, state },
                Err(error) => Evaluated::Failed { error, state },
            },
            stopped => stopped,
        },
        ExpressionModel::Call(callee, arguments) => match evaluate(
            *callee,
            globals,
            answers,
            state,
        ) {
            Evaluated::Done { value: Some(ValueModel::NativeFunction { name }), state } => {
                match evaluate_arguments(arguments, 0, Seq::empty(), globals, answers, state) {
                    Evaluated::Done { value: arguments, state } => invoke(
                        name,
                        arguments,
                        answers,
                        state,
                    ),
                    Evaluated::Failed { error, state } => Evaluated::Failed { error, state },
                    Evaluated::Pending { request, state } => Evaluated::Pending { request, state },
                }
            },
            Evaluated::Done { value, state } => Evaluated::Failed {
                error: RuntimeErrorModel::NotCallable(kind_of(value)),
                state,
            },
            stopped => stopped,
        },
        ExpressionModel::Closure(..) => Evaluated::Failed {
            error: RuntimeErrorModel::TypeMismatch(Mismatch::Function),
            state,
        },
    }
}

/// The values of the arguments of a call from `index` on, after those in
/// `done`. An argument without a value is a mismatch.
pub open spec fn evaluate_arguments(
    arguments: Seq<ExpressionModel>,
    index: nat,
    done: Seq<ValueModel>,
    globals: Scope,
    answers: Seq<AnswerModel>,
    state: State,
) -> Evaluated<Seq<ValueModel>>
    decreases arguments, arguments.len() - index,
{
    if index >= arguments.len() {
        Evaluated::Done { value: done, state }
    } else {
        match evaluate(arguments[index as int], globals, answers, state) {
            Evaluated::Done { value: Some(value), state } => evaluate_arguments(
                arguments,
                index + 1,
                done.push(value),
                globals,
                answers,
                state,
            ),
            Evaluated::Done { value: None, state } => Evaluated::Failed {
                error: RuntimeErrorModel::TypeMismatch(Mismatch::UnassignedArgument),
                state,
            },
            Evaluated::Failed { error, state } => Evaluated::Failed { error, state },
            Evaluated::Pending { request, state } => Evaluated::Pending { request, state },
        }
    }
}

/// The effect of a statement.
///
/// A declaration binds its name to the value of its expression, or to no
/// value if it has none. An expression is evaluated and its value dropped. A
/// conditional runs its first block if its condition holds, else its second
/// block if it has one; both run in the environment of the conditional. A
/// function declaration is a mismatch: the language has no value for it.
pub open spec fn execute(
    statement: StatementModel,
    globals: Scope,
    answers: Seq<AnswerModel>,
    state: State,
) -> Evaluated<()>
    decreases statement, 0int,
{
    match statement {
        StatementModel::LetDeclaration { name, initial: None } => Evaluated::Done {
            value: (),
            state: State {
                environment: state.environment.insert(name, None),
                taken: state.taken,
            },
        },
        StatementModel::LetDeclaration { name, initial: Some(initial) } => match evaluate(
            initial,
            globals,
            answers,
            state,
        ) {
            Evaluated::Done { value, state } => Evaluated::Done {
                value: (),
                state: State {
                    environment: state.environment.insert(name, value),
                    taken: state.taken,
                },
            },
            Evaluated::Failed { error, state } => Evaluated::Failed { error, state },
            Evaluated::Pending { request, state } => Evaluated::Pending { request, state },
        },
        StatementModel::Expression { expression } => match evaluate(
            expression,
            globals,
            answers,
            state,
        ) {
            Evaluated::Done { state, .. } => Evaluated::Done { value: (), state },
            Evaluated::Failed { error, state } => Evaluated::Failed { error, state },
            Evaluated::Pending { request, state } => Evaluated::Pending { request, state },
        },
        StatementModel::If { condition, consequent, otherwise } => match evaluate(
            condition,
            globals,
            answers,
            state,
        ) {
            Evaluated::Done { value, state } => {
                if truthy(value) {
                    execute_block(consequent, 0, globals, answers, state)
                } else {
                    match otherwise {
                        Some(block) => execute_block(block, 0, globals, answers, state),
                        None => Evaluated::Done { value: (), state },
                    }
                }
            },
            Evaluated::Failed { error, state } => Evaluated::Failed { error, state },
            Evaluated::Pending { request, state } => Evaluated::Pending { request, state },
        },
        StatementModel::FunctionDeclaration { .. } => Evaluated::Failed {
            error: RuntimeErrorModel::TypeMismatch(Mismatch::Function),
            state,
        },
    }
}

/// The effect of the statements of a block from `index` on, in order.
pub open spec fn execute_block(
    statements: Seq<StatementModel>,
    index: nat,
    globals: Scope,
    answers: Seq<AnswerModel>,
    state: State,
) -> Evaluated<()>
    decreases statements, statements.len() - index,
{
    if index >= statements.len() {
        Evaluated::Done { value: (), state }
    } else {
        match execute(statements[index as int], globals, answers, state) {
            Evaluated::Done { state, .. } => execute_block(
                statements,
                index + 1,
                globals,
                answers,
                state,
            ),
            stopped => stopped,
        }
    }
}

/// A variable that is declared without a first value and read before it is
/// assigned yields no value: that is no error, and no number stands in for
/// the missing value.
pub proof fn declared_unassigned_yields_nothing(
    name: Seq<char>,
    globals: Scope,
    answers: Seq<AnswerModel>,
    state: State,
)
    requires
        !globals.contains_key(name),
    ensures
        execute(
            StatementModel::LetDeclaration { name, initial: None },
            globals,
            answers,
            state,
        ) matches Evaluated::Done { state: declared, .. } && evaluate(
            ExpressionModel::Identifier(name),
            globals,
            answers,
            declared,
        ) == (Evaluated::Done { value: None::<ValueModel>, state: declared }),
{
}

/// A call whose callee is no native function is not callable, whatever its
/// arguments are: the callee is judged before any argument is evaluated, no
/// native function is called, and the failed call leaves the state as the
/// evaluation of the callee left it. In particular a number cannot be called.
pub proof fn only_native_functions_are_callable(
    callee: ExpressionModel,
    arguments: Seq<ExpressionModel>,
    globals: Scope,
    answers: Seq<AnswerModel>,
    state: State,
)
    requires
        evaluate(callee, globals, answers, state) is Done,
        kind_of(evaluate(callee, globals, answers, state)->value) != ValueKind::NativeFunction,
    ensures
        evaluate(ExpressionModel::Call(Box::new(callee), arguments), globals, answers, state) == (
        Evaluated::Failed::<Option<ValueModel>> {
            error: RuntimeErrorModel::NotCallable(
                kind_of(evaluate(callee, globals, answers, state)->value),
            ),
            state: evaluate(callee, globals, answers, state).reached(),
        }),
        evaluate(callee, globals, answers, state)->value matches Some(ValueModel::Number(_))
            ==> evaluate(
            ExpressionModel::Call(Box::new(callee), arguments),
            globals,
            answers,
            state,
        ) == (Evaluated::Failed::<Option<ValueModel>> {
            error: RuntimeErrorModel::NotCallable(ValueKind::Number),
            state: evaluate(callee, globals, answers, state).reached(),
        }),
{
}

/// To call a name that holds a number fails and changes nothing: neither the
/// environment nor the count of answers taken.
pub proof fn calling_a_number_changes_nothing(
    name: Seq<char>,
    bits: u64,
    arguments: Seq<ExpressionModel>,
    globals: Scope,
    answers: Seq<AnswerModel>,
    state: State,
)
    requires
        resolve(name, globals, state.environment) == Ok::<Option<ValueModel>, RuntimeErrorModel>(
            Some(ValueModel::Number(bits)),
        ),
    ensures
        evaluate(
            ExpressionModel::Call(Box::new(ExpressionModel::Identifier(name)), arguments),
            globals,
            answers,
            state,
        ) == (Evaluated::Failed::<Option<ValueModel>> {
            error: RuntimeErrorModel::NotCallable(ValueKind::Number),
            state,
        }),
{
    let callee = ExpressionModel::Identifier(name);
    assert(evaluate(callee, globals, answers, state) == (Evaluated::Done {
        value: Some(ValueModel::Number(bits)),
        state,
    }));
    only_native_functions_are_callable(callee, arguments, globals, answers, state);
}

/// A global takes precedence over a variable of the same name.
pub proof fn globals_are_resolved_first(name: Seq<char>, globals: Scope, environment: Scope)
    requires
        globals.contains_key(name),
    ensures
        resolve(name, globals, environment) == Ok::<Option<ValueModel>, RuntimeErrorModel>(
            globals[name],
        ),
{
}

/// Arithmetic is defined on two numbers only: with any other operand the
/// operator fails with a mismatch that names the operator and the kinds of
/// both operands, and asks nothing of the host.
pub proof fn arithmetic_needs_two_numbers(
    op: Op,
    left: Option<ValueModel>,
    right: Option<ValueModel>,
    answers: Seq<AnswerModel>,
    state: State,
)
    requires
        kind_of(left) != ValueKind::Number || kind_of(right) != ValueKind::Number,
    ensures
        apply_infix(op, left, right, answers, state) == (Evaluated::Failed::<Option<ValueModel>> {
            error: RuntimeErrorModel::TypeMismatch(
                Mismatch::Operands { op, left: kind_of(left), right: kind_of(right) },
            ),
            state,
        }),
{
}

/// Whether an evaluation in `state` that ended as `evaluated` took its
/// answers from those that are there, and in order.
pub open spec fn within<T>(evaluated: Evaluated<T>, state: State, answers: Seq<AnswerModel>) -> bool {
    state.taken <= evaluated.reached().taken <= answers.len()
}

/// An evaluation that has come to a result or to an error is settled: it takes
/// no answer that is not there, and further answers of the host do not change
/// it. So to take a statement up again, once the host has given more answers,
/// is to repeat what was done and to go on from there.
pub proof fn evaluation_is_settled(
    expression: ExpressionModel,
    globals: Scope,
    answers: Seq<AnswerModel>,
    more: Seq<AnswerModel>,
    state: State,
)
    requires
        state.taken <= answers.len(),
    ensures
        within(evaluate(expression, globals, answers, state), state, answers),
        !(evaluate(expression, globals, answers, state) is Pending) ==> evaluate(
            expression,
            globals,
            answers + more,
            state,
        ) == evaluate(expression, globals, answers, state),
    decreases expression, 0int,
{
    let longer = answers + more;
    assert(forall|i: int| 0 <= i < answers.len() ==> longer[i] == answers[i]);
    match expression {
        ExpressionModel::Infix(left, op, right) => {
            evaluation_is_settled(*left, globals, answers, more, state);
            if let Evaluated::Done { state: middle, .. } = evaluate(*left, globals, answers, state) {
                evaluation_is_settled(*right, globals, answers, more, middle);
            }
        },
        ExpressionModel::Prefix(op, operand) => {
            evaluation_is_settled(*operand, globals, answers, more, state);
        },
        ExpressionModel::Call(callee, arguments) => {
            evaluation_is_settled(*callee, globals, answers, more, state);
            if let Evaluated::Done { state: called, .. } = evaluate(
                *callee,
                globals,
                answers,
                state,
            ) {
                arguments_are_settled(arguments, 0, Seq::empty(), globals, answers, more, called);
            }
        },
        _ => {},
    }
}

/// The evaluation of the arguments of a call is settled in the same way.
pub proof fn arguments_are_settled(
    arguments: Seq<ExpressionModel>,
    index: nat,
    done: Seq<ValueModel>,
    globals: Scope,
    answers: Seq<AnswerModel>,
    more: Seq<AnswerModel>,
    state: State,
)
    requires
        state.taken <= answers.len(),
    ensures
        within(evaluate_arguments(arguments, index, done, globals, answers, state), state, answers),
        !(evaluate_arguments(arguments, index, done, globals, answers, state) is Pending)
            ==> evaluate_arguments(arguments, index, done, globals, answers + more, state)
            == evaluate_arguments(arguments, index, done, globals, answers, state),
    decreases arguments, arguments.len() - index,
{
    if index < arguments.len() {
        evaluation_is_settled(arguments[index as int], globals, answers, more, state);
        if let Evaluated::Done { value: Some(value), state: after } = evaluate(
            arguments[index as int],
            globals,
            answers,
            state,
        ) {
            arguments_are_settled(
                arguments,
                index + 1,
                done.push(value),
                globals,
                answers,
                more,
                after,
            );
        }
    }
}

/// The run of a statement is settled in the same way.
pub proof fn execution_is_settled(
    statement: StatementModel,
    globals: Scope,
    answers: Seq<AnswerModel>,
    more: Seq<AnswerModel>,
    state: State,
)
    requires
        state.taken <= answers.len(),
    ensures
        within(execute(statement, globals, answers, state), state, answers),
        !(execute(statement, globals, answers, state) is Pending) ==> execute(
            statement,
            globals,
            answers + more,
            state,
        ) == execute(statement, globals, answers, state),
    decreases statement, 0int,
{
    match statement {
        StatementModel::LetDeclaration { name, initial: Some(initial) } => {
            evaluation_is_settled(initial, globals, answers, more, state);
        },
        StatementModel::Expression { expression } => {
            evaluation_is_settled(expression, globals, answers, more, state);
        },
        StatementModel::If { condition, consequent, otherwise } => {
            evaluation_is_settled(condition, globals, answers, more, state);
            if let Evaluated::Done { value, state: decided } = evaluate(
                condition,
                globals,
                answers,
                state,
            ) {
                if truthy(value) {
                    block_is_settled(consequent, 0, globals, answers, more, decided);
                } else if let Some(block) = otherwise {
                    block_is_settled(block, 0, globals, answers, more, decided);
                }
            }
        },
        _ => {},
    }
}

/// The run of a block is settled in the same way.
pub proof fn block_is_settled(
    statements: Seq<StatementModel>,
    index: nat,
    globals: Scope,
    answers: Seq<AnswerModel>,
    more: Seq<AnswerModel>,
    state: State,
)
    requires
        state.taken <= answers.len(),
    ensures
        within(execute_block(statements, index, globals, answers, state), state, answers),
        !(execute_block(statements, index, globals, answers, state) is Pending) ==> execute_block(
            statements,
            index,
            globals,
            answers + more,
            state,
        ) == execute_block(statements, index, globals, answers, state),
    decreases statements, statements.len() - index,
{
    if index < statements.len() {
        execution_is_settled(statements[index as int], globals, answers, more, state);
        if let Evaluated::Done { state: after, .. } = execute(
            statements[index as int],
            globals,
            answers,
            state,
        ) {
            block_is_settled(statements, index + 1, globals, answers, more, after);
        }
    }
}

} // verus!
