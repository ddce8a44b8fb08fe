//! Errors of evaluation.

use crate::ast::Op;
use crate::value::ValueKind;
use vstd::prelude::*;

verus! {

/// What did not fit where a value of some kind was needed.
#[derive(Debug, Clone, Copy, PartialEq, Eq, Structural)]
pub enum Mismatch {
    /// A binary operator on operands for which it is not defined.
    Operands { op: Op, left: ValueKind, right: ValueKind },
    /// A unary operator on an operand for which it is not defined.
    Operand { op: Op, operand: ValueKind },
    /// An argument of a call that has no value.
    UnassignedArgument,
    /// A function or a closure where a value is needed: the language has no
    /// value that stands for one.
    Function,
}

/// Why evaluation was aborted.
#[derive(Debug, PartialEq)]
pub enum RuntimeError {
    /// A name that was never declared.
    UndefinedVariable(String),
    /// A value of a kind that does not fit its place.
    TypeMismatch(Mismatch),
    /// A call of something that is no native function.
    NotCallable(ValueKind),
}

/// The mathematical model of a runtime error.
pub enum RuntimeErrorModel {
    UndefinedVariable(Seq<char>),
    TypeMismatch(Mismatch),
    NotCallable(ValueKind),
}

impl View for RuntimeError {
    type V = RuntimeErrorModel;

    open spec fn view(&self) -> RuntimeErrorModel {
        match self {
            RuntimeError::UndefinedVariable(name) => RuntimeErrorModel::UndefinedVariable(name@),
            RuntimeError::TypeMismatch(mismatch) => RuntimeErrorModel::TypeMismatch(*mismatch),
            RuntimeError::NotCallable(kind) => RuntimeErrorModel::NotCallable(*kind),
        }
    }
}

} // verus!
