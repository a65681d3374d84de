//! The values that registers hold, and the small records of the machine.

use crate::instructions::Register;
use crate::types::{Literal, LiteralView};
use vstd::prelude::*;

verus! {

/// What a register holds. Objects and arrays are held by their handle on the
/// heap of the machine, functions by their position in the table: a copy of a
/// register shares the container with the register that it was copied from.
#[derive(Debug, PartialEq)]
pub enum VMValue {
    Empty,
    Literal(Literal),
    Object(usize),
    Array(usize),
    Function(usize),
}

/// What a [`VMValue`] stands for.
pub enum ValueView {
    Empty,
    Literal(LiteralView),
    Object(usize),
    Array(usize),
    Function(usize),
}

impl View for VMValue {
    type V = ValueView;

    open spec fn view(&self) -> ValueView {
        match *self {
            VMValue::Empty => ValueView::Empty,
            VMValue::Literal(literal) => ValueView::Literal(literal@),
            VMValue::Object(handle) => ValueView::Object(handle),
            VMValue::Array(handle) => ValueView::Array(handle),
            VMValue::Function(position) => ValueView::Function(position),
        }
    }
}

impl Clone for VMValue {
    fn clone(&self) -> (res: Self)
        ensures
            res@ == self@,
    {
        match self {
            VMValue::Empty => VMValue::Empty,
            VMValue::Literal(literal) => VMValue::Literal(literal.clone()),
            VMValue::Object(handle) => VMValue::Object(*handle),
            VMValue::Array(handle) => VMValue::Array(*handle),
            VMValue::Function(position) => VMValue::Function(*position),
        }
    }
}

impl Default for VMValue {
    fn default() -> (value: Self)
        ensures
            value@ == ValueView::Empty,
    {
        VMValue::Empty
    }
}

/// The views of a sequence of values, in order.
pub open spec fn register_views(values: Seq<VMValue>) -> Seq<ValueView> {
    Seq::new(values.len(), |i: int| values[i]@)
}

/// The operators that take two registers.
#[derive(Debug, Clone, Copy, PartialEq, Eq, Structural)]
pub enum BinaryOperator {
    Add,
    Sub,
    Mul,
    Div,
    Equals,
    NotEquals,
    GreaterThan,
    GreaterThanOrEquals,
    LessThan,
    LessThanOrEquals,
}

impl BinaryOperator {
    /// Whether the operator computes a number from two numbers.
    pub open spec fn is_arithmetic(self) -> bool {
        self == BinaryOperator::Add || self == BinaryOperator::Sub || self == BinaryOperator::Mul
            || self == BinaryOperator::Div
    }

    /// Whether the operator tests for equality or inequality.
    pub open spec fn is_equality(self) -> bool {
        self == BinaryOperator::Equals || self == BinaryOperator::NotEquals
    }

    /// Whether the operator computes a number from two numbers.
    pub fn arithmetic(&self) -> (r: bool)
        ensures
            r == self.is_arithmetic(),
    {
        match self {
            BinaryOperator::Add | BinaryOperator::Sub | BinaryOperator::Mul | BinaryOperator::Div => true,
            _ => false,
        }
    }

    /// Whether the operator tests for equality or inequality.
    pub fn equality(&self) -> (r: bool)
        ensures
            r == self.is_equality(),
    {
        match self {
            BinaryOperator::Equals | BinaryOperator::NotEquals => true,
            _ => false,
        }
    }
}

/// What a caller leaves behind when it calls: where it stands in its code,
/// which code that is, the size of its window, and the register of its window
/// that the result is to go to.
#[derive(Debug, Clone, Copy, PartialEq, Eq, Structural)]
pub struct SavedCallFrame {
    pub ip: usize,
    pub function: Option<usize>,
    pub register_count: u8,
    pub function_return_value: Register,
}

/// What the machine waits for the host to finish.
#[derive(Debug, Clone, Copy, PartialEq, Eq, Structural)]
pub enum Pending {
    Nothing,
    NativeCall { return_val: Register },
    FloatOperation { dest: Register, operator: BinaryOperator },
}

} // verus!
