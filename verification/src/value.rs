//! Runtime values.

use vstd::prelude::*;

verus! {

/// The bit pattern of positive zero.
pub const ZERO: u64 = 0;

/// The bit pattern of one.
pub const ONE: u64 = 0x3FF0_0000_0000_0000;

/// The bit that holds a number's sign.
pub const SIGN: u64 = 0x8000_0000_0000_0000;

/// A value that the evaluator produces.
///
/// A number is held as the 64 bits of its IEEE 754 double-precision
/// representation. The library moves numbers about and looks at their sign and
/// at whether they are zero; it leaves arithmetic to the host.
#[derive(Debug, PartialEq)]
pub enum Value {
    Number(u64),
    String(String),
    NativeFunction { name: String },
}

/// The kinds of value, and the state of a variable that has none.
#[derive(Debug, Clone, Copy, PartialEq, Eq, Structural)]
pub enum ValueKind {
    Unassigned,
    Number,
    String,
    NativeFunction,
}

/// The mathematical model of a value.
pub enum ValueModel {
    Number(u64),
    String(Seq<char>),
    NativeFunction { name: Seq<char> },
}

impl View for Value {
    type V = ValueModel;

    open spec fn view(&self) -> ValueModel {
        match self {
            Value::Number(bits) => ValueModel::Number(*bits),
            Value::String(text) => ValueModel::String(text@),
            Value::NativeFunction { name } => ValueModel::NativeFunction { name: name@ },
        }
    }
}

/// The model of an optional value: of what a variable holds or an expression
/// yields.
pub open spec fn optional_model(value: Option<Value>) -> Option<ValueModel> {
    match value {
        Some(value) => Some(value@),
        None => None,
    }
}

/// The models of a list of values, in order.
pub open spec fn value_models(values: Seq<Value>) -> Seq<ValueModel> {
    values.map_values(|value: Value| value@)
}

/// The kind of an optional value.
pub open spec fn kind_of(value: Option<ValueModel>) -> ValueKind {
    match value {
        None => ValueKind::Unassigned,
        Some(ValueModel::Number(_)) => ValueKind::Number,
        Some(ValueModel::String(_)) => ValueKind::String,
        Some(ValueModel::NativeFunction { .. }) => ValueKind::NativeFunction,
    }
}

/// Whether a condition with this value holds. A number holds unless it is
/// zero, of either sign; a string holds unless it is empty; a native function
/// holds; a variable without a value does not.
pub open spec fn truthy(value: Option<ValueModel>) -> bool {
    match value {
        None => false,
        Some(ValueModel::Number(bits)) => bits != ZERO && bits != SIGN,
        Some(ValueModel::String(text)) => text.len() > 0,
        Some(ValueModel::NativeFunction { .. }) => true,
    }
}

/// The number that stands for a truth value: one for true, zero for false.
pub open spec fn truth_bits(truth: bool) -> u64 {
    if truth {
        ONE
    } else {
        ZERO
    }
}

/// The bits of a number with its sign changed.
pub open spec fn negated_bits(bits: u64) -> u64 {
    if bits >= SIGN {
        (bits - SIGN) as u64
    } else {
        (bits + SIGN) as u64
    }
}

impl Clone for Value {
    fn clone(&self) -> (copy: Self)
        ensures
            copy == *self,
    {
        match self {
            Value::Number(bits) => Value::Number(*bits),
            Value::String(text) => Value::String(text.clone()),
            Value::NativeFunction { name } => Value::NativeFunction { name: name.clone() },
        }
    }
}

impl Value {
    /// The kind of this value.
    pub fn kind(&self) -> (kind: ValueKind)
        ensures
            kind == kind_of(Some(self@)),
    {
        match self {
            Value::Number(_) => ValueKind::Number,
            Value::String(_) => ValueKind::String,
            Value::NativeFunction { .. } => ValueKind::NativeFunction,
        }
    }

    /// The bits of this value, which is a number.
    pub fn to_number(self) -> (bits: u64)
        requires
            self is Number,
        ensures
            self == Value::Number(bits),
    {
        match self {
            Value::Number(bits) => bits,
            _ => {
                proof {
                    assert(false);
                }
                ZERO
            },
        }
    }

    /// Whether a condition with this value holds.
    pub fn is_truthy(&self) -> (truth: bool)
        ensures
            truth == truthy(Some(self@)),
    {
        match self {
            Value::Number(bits) => *bits != ZERO && *bits != SIGN,
            Value::String(text) => text.as_str().unicode_len() > 0,
            Value::NativeFunction { .. } => true,
        }
    }

    /// This number with its sign changed.
    pub fn negate(bits: u64) -> (negated: u64)
        ensures
            negated == negated_bits(bits),
    {
        if bits >= SIGN {
            bits - SIGN
        } else {
            bits + SIGN
        }
    }

    /// The number that stands for a truth value.
    pub fn truth(truth: bool) -> (value: Value)
        ensures
            value@ == ValueModel::Number(truth_bits(truth)),
    {
        if truth {
            Value::Number(ONE)
        } else {
            Value::Number(ZERO)
        }
    }
}

/// The kind of an optional value.
pub fn kind_of_optional(value: &Option<Value>) -> (kind: ValueKind)
    ensures
        kind == kind_of(optional_model(*value)),
{
    match value {
        Some(value) => value.kind(),
        None => ValueKind::Unassigned,
    }
}

/// Whether a condition with this optional value holds.
pub fn is_truthy(value: &Option<Value>) -> (truth: bool)
    ensures
        truth == truthy(optional_model(*value)),
{
    match value {
        Some(value) => value.is_truthy(),
        None => false,
    }
}

/// A copy of an optional value.
pub fn clone_optional(value: &Option<Value>) -> (copy: Option<Value>)
    ensures
        copy == *value,
{
    match value {
        Some(value) => Some(value.clone()),
        None => None,
    }
}

/// Changing the sign of a number twice gives the number back.
pub proof fn negation_is_an_involution(bits: u64)
    ensures
        negated_bits(negated_bits(bits)) == bits,
{
}

} // verus!
