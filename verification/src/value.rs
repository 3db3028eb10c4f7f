//! The values that evaluation produces.

use vstd::prelude::*;
use vstd::string::*;
use crate::error::{plain_error, Error, ErrorKind, ErrorView, Position};
use crate::number::{text_of_double, write_double};

verus! {

/// A runtime value. A number is held as the bit pattern of its double.
#[derive(Debug)]
pub enum Value {
    Number(u64),
    String(String),
    Bool(bool),
    Nil,
}

/// The mathematical content of a [`Value`].
pub enum ValueView {
    Number(u64),
    String(Seq<char>),
    Bool(bool),
    Nil,
}

impl ValueView {
    /// Every value counts as true but the boolean `false`.
    pub open spec fn is_truthy(self) -> bool {
        match self {
            ValueView::Bool(b) => b,
            _ => true,
        }
    }
}

impl View for Value {
    type V = ValueView;

    open spec fn view(&self) -> ValueView {
        match self {
            Value::Number(n) => ValueView::Number(*n),
            Value::String(s) => ValueView::String(s@),
            Value::Bool(b) => ValueView::Bool(*b),
            Value::Nil => ValueView::Nil,
        }
    }
}

/// The text of a value: a number as every number is written, a string as
/// it is, `true`, `false` or `nil`.
pub open spec fn value_text(v: ValueView) -> Seq<char> {
    match v {
        ValueView::Number(n) => text_of_double(n),
        ValueView::String(s) => s,
        ValueView::Bool(b) => if b {
            "true"@
        } else {
            "false"@
        },
        ValueView::Nil => "nil"@,
    }
}

/// The content of an evaluation's outcome.
pub open spec fn outcome_view(r: Result<Value, Error>) -> Result<ValueView, ErrorView> {
    match r {
        Ok(v) => Ok(v@),
        Err(e) => Err(e@),
    }
}

/// What an arithmetic operator gives for two operands, where `combined` is
/// what the operation makes of two numbers: a number for two numbers, a
/// runtime error at `position` for anything else.
pub open spec fn numeric_outcome(
    left: ValueView,
    right: ValueView,
    combined: u64,
    position: Position,
) -> Result<ValueView, ErrorView> {
    if left is Number && right is Number {
        Ok(ValueView::Number(combined))
    } else {
        Err(plain_error(ErrorKind::Runtime, "operands must be numbers"@, position))
    }
}

impl Clone for Value {
    fn clone(&self) -> (v: Self)
        ensures
            v@ == self@,
    {
        match self {
            Value::Number(n) => Value::Number(*n),
            Value::String(s) => Value::String(s.clone()),
            Value::Bool(b) => Value::Bool(*b),
            Value::Nil => Value::Nil,
        }
    }
}

impl Value {
    /// Whether the value counts as true in a condition.
    pub fn is_truthy(&self) -> (b: bool)
        ensures
            b == self@.is_truthy(),
    {
        match self {
            Value::Bool(b) => *b,
            _ => true,
        }
    }

    /// The text that shows the value.
    pub fn text(&self) -> (t: String)
        ensures
            t@ == value_text(self@),
    {
        match self {
            Value::Number(n) => write_double(*n),
            Value::String(s) => s.clone(),
            Value::Bool(b) => if *b {
                String::from_str("true")
            } else {
                String::from_str("false")
            },
            Value::Nil => String::from_str("nil"),
        }
    }

    /// The name of the value's type, for messages.
    pub fn kind_name(&self) -> (name: &'static str)
        ensures
            self@ is Number ==> name@ == "number"@,
            self@ is String ==> name@ == "string"@,
            self@ is Bool ==> name@ == "boolean"@,
            self@ is Nil ==> name@ == "nil"@,
    {
        match self {
            Value::Number(_) => "number",
            Value::String(_) => "string",
            Value::Bool(_) => "boolean",
            Value::Nil => "nil",
        }
    }

    /// Applies `op` to two numbers; any other pair of operands is a runtime
    /// error at `position`, and `op` is then not called.
    pub fn binary_number_operation<F: FnOnce(u64, u64) -> u64>(
        left: &Value,
        right: &Value,
        op: F,
        position: Position,
    ) -> (r: Result<Value, Error>)
        requires
            left@ is Number && right@ is Number ==> op.requires(
                (left@->Number_0, right@->Number_0),
            ),
        ensures
            left@ is Number && right@ is Number ==> r is Ok && r->Ok_0@ is Number && op.ensures(
                (left@->Number_0, right@->Number_0),
                r->Ok_0@->Number_0,
            ),
            !(left@ is Number && right@ is Number) ==> outcome_view(r) == numeric_outcome(
                left@,
                right@,
                0,
                position,
            ),
    {
        match (left, right) {
            (Value::Number(l), Value::Number(r)) => Ok(Value::Number(op(*l, *r))),
            _ => Err(Error::runtime("operands must be numbers", position)),
        }
    }
}

} // verus!
