//! The instruction set.  `CONSTANT` is followed by one byte, the index of a
//! constant; every other instruction is a single byte.
use vstd::prelude::*;

verus! {

/// Pops the result and ends the run.
pub const RETURN: u8 = 0;

/// Pushes the constant whose index follows.
pub const CONSTANT: u8 = 1;

/// Replaces the number on top by its negation.
pub const NEGATE: u8 = 2;

/// Replaces the two numbers on top by their sum.
pub const ADD: u8 = 3;

/// Replaces the two numbers on top by their difference.
pub const SUBTRACT: u8 = 4;

/// Replaces the two numbers on top by their product.
pub const MULTIPLY: u8 = 5;

/// Replaces the two numbers on top by their quotient.
pub const DIVIDE: u8 = 6;

/// Replaces a condition and two values by the value that the condition selects.
pub const TERNARY_LOGICAL: u8 = 7;

/// Replaces the value on top by whether it is falsey.
pub const NOT: u8 = 8;

/// Replaces the two numbers on top by whether the first is the greater.
pub const GREATER: u8 = 9;

/// Replaces the two values on top by whether they are equal.
pub const EQUAL: u8 = 10;

/// Replaces the two numbers on top by whether the first is the less.
pub const LESS: u8 = 11;

/// Pushes `nil`.
pub const NIL: u8 = 12;

/// Pushes `true`.
pub const TRUE: u8 = 13;

/// Pushes `false`.
pub const FALSE: u8 = 14;

} // verus!
