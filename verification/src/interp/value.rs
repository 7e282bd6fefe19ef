//! The values of the tree-walking evaluator.
//!
//! A value is a small word-sized thing that can be copied freely.  What is
//! large or shared lies in the heap and is named by its index there:
//! strings are interned, so that two strings are equal exactly if they are
//! the same index; classes and instances are compared by identity.
use vstd::prelude::*;

use crate::ast::ExprFunction;
use crate::number::{is_nan, number_same, same};

verus! {

/// A function together with the scope that it was created in.
#[derive(Clone, Copy, Debug, PartialEq, Eq, Structural)]
pub struct Function {
    /// The parameters and the body.
    pub def: ExprFunction,
    /// The scope captured at creation.
    pub scope: usize,
    /// Whether this is the method `init` of a class.
    pub is_initializer: bool,
}

/// The functions that the evaluator provides.
#[derive(Clone, Copy, Debug, PartialEq, Eq, Structural)]
pub enum NativeFunction {
    /// Seconds since the epoch, as a number.  Takes no arguments.
    Clock,
}

/// What can be called.
#[derive(Clone, Copy, Debug, PartialEq, Eq, Structural)]
pub enum Func {
    Lox(Function),
    Native(NativeFunction),
    /// A class, by its index in the heap.  Calling it makes an instance.
    Class(usize),
}

/// A value.
#[derive(Clone, Copy, Debug, PartialEq, Eq, Structural)]
pub enum Value {
    Nil,
    Boolean(bool),
    /// A number, by the bits of its double.
    Number(u64),
    /// A string, by its index among the interned strings.
    String(u64),
    Func(Func),
    /// An instance, by its index in the heap.
    Instance(usize),
}

/// Whether a value counts as true: everything but `nil` and `false` does.
pub open spec fn truthy(v: Value) -> bool {
    match v {
        Value::Nil => false,
        Value::Boolean(b) => b,
        _ => true,
    }
}

/// Equality of values.  Values of different kinds are never equal; numbers
/// are equal as numbers, so that the two zeros are and a NaN is not even
/// equal to itself; everything else is equal if it is the same.
pub open spec fn equal(a: Value, b: Value) -> bool {
    match (a, b) {
        (Value::Number(x), Value::Number(y)) => same(x, y),
        _ => a == b,
    }
}

impl Function {
    /// How many arguments the function takes.
    pub fn arity(&self) -> (n: usize)
        ensures
            n == self.def.params.len,
    {
        self.def.params.len
    }

    /// How the function is named in messages.
    pub fn name(&self) -> (s: &'static str)
        ensures
            s@ == "<function>"@,
    {
        "<function>"
    }
}

impl NativeFunction {
    /// The number of arguments that the function takes.
    pub fn arity(&self) -> (n: usize)
        ensures
            n == 0,
    {
        0
    }

    /// The name under which the function is defined.
    pub fn name(&self) -> (s: &'static str)
        ensures
            s@ == "clock"@,
    {
        "clock"
    }
}

impl Value {
    /// Whether the value counts as true.
    pub fn is_truthy(&self) -> (r: bool)
        ensures
            r == truthy(*self),
    {
        match self {
            Value::Nil => false,
            Value::Boolean(b) => *b,
            _ => true,
        }
    }

    /// Whether the two values are equal.
    pub fn equals(&self, other: &Value) -> (r: bool)
        ensures
            r == equal(*self, *other),
    {
        match (*self, *other) {
            (Value::Number(x), Value::Number(y)) => number_same(x, y),
            (a, b) => a == b,
        }
    }
}

/// Equality is symmetric, and reflexive on everything but NaN.
pub proof fn lemma_equal(a: Value, b: Value)
    ensures
        equal(a, b) == equal(b, a),
        !(a matches Value::Number(x) && is_nan(x)) ==> equal(a, a),
        (a matches Value::Number(x) && is_nan(x)) ==> !equal(a, a),
{
}

} // verus!
