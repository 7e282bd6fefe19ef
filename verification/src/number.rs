//! Lox numbers are IEEE-754 double-precision values, held here as their 64
//! bits.  This module decides what can be decided on the bits alone: the
//! classes of a number, its negation, and the order and equality of two
//! numbers.  Rounding arithmetic is the host's.
use vstd::prelude::*;

verus! {

/// The sign bit.
pub const SIGN_BIT: u64 = 0x8000_0000_0000_0000;

/// All bits but the sign.
pub const MAGNITUDE_MASK: u64 = 0x7FFF_FFFF_FFFF_FFFF;

/// The magnitude of infinity: the exponent all ones, the fraction zero.
pub const INFINITY_BITS: u64 = 0x7FF0_0000_0000_0000;

/// The bits without the sign.
pub open spec fn magnitude(bits: u64) -> u64 {
    bits & MAGNITUDE_MASK
}

/// Whether the sign bit is set.
pub open spec fn is_negative(bits: u64) -> bool {
    bits & SIGN_BIT != 0
}

/// Not a number: the exponent is all ones and the fraction is not zero.
pub open spec fn is_nan(bits: u64) -> bool {
    magnitude(bits) > INFINITY_BITS
}

/// Positive or negative zero.
pub open spec fn is_zero(bits: u64) -> bool {
    magnitude(bits) == 0
}

/// The place of a number that is not NaN on the number line: numbers compare
/// as these integers do.  Both zeros have place 0.
pub open spec fn place(bits: u64) -> int {
    if is_negative(bits) {
        -(magnitude(bits) as int)
    } else {
        magnitude(bits) as int
    }
}

/// `a < b` as numbers.  False when either is NaN.
pub open spec fn less(a: u64, b: u64) -> bool {
    !is_nan(a) && !is_nan(b) && place(a) < place(b)
}

/// `a == b` as numbers.  False when either is NaN; the two zeros are equal.
pub open spec fn same(a: u64, b: u64) -> bool {
    !is_nan(a) && !is_nan(b) && place(a) == place(b)
}

/// `a <= b` as numbers.
pub open spec fn less_or_same(a: u64, b: u64) -> bool {
    !is_nan(a) && !is_nan(b) && place(a) <= place(b)
}

/// The number with the opposite sign.
pub open spec fn negated(bits: u64) -> u64 {
    bits ^ SIGN_BIT
}

/// Whether `bits` is not a number.
pub fn number_is_nan(bits: u64) -> (r: bool)
    ensures
        r == is_nan(bits),
{
    (bits & MAGNITUDE_MASK) > INFINITY_BITS
}

/// Whether `bits` is one of the two zeros.
pub fn number_is_zero(bits: u64) -> (r: bool)
    ensures
        r == is_zero(bits),
{
    (bits & MAGNITUDE_MASK) == 0
}

/// The number of opposite sign.
pub fn number_negate(bits: u64) -> (r: u64)
    ensures
        r == negated(bits),
{
    bits ^ SIGN_BIT
}

fn number_place(bits: u64) -> (r: i128)
    ensures
        r == place(bits),
{
    let m: u64 = bits & MAGNITUDE_MASK;
    if bits & SIGN_BIT != 0 {
        -(m as i128)
    } else {
        m as i128
    }
}

/// `a < b` as numbers.
pub fn number_less(a: u64, b: u64) -> (r: bool)
    ensures
        r == less(a, b),
{
    !number_is_nan(a) && !number_is_nan(b) && number_place(a) < number_place(b)
}

/// `a <= b` as numbers.
pub fn number_less_or_same(a: u64, b: u64) -> (r: bool)
    ensures
        r == less_or_same(a, b),
{
    !number_is_nan(a) && !number_is_nan(b) && number_place(a) <= number_place(b)
}

/// `a == b` as numbers.
pub fn number_same(a: u64, b: u64) -> (r: bool)
    ensures
        r == same(a, b),
{
    !number_is_nan(a) && !number_is_nan(b) && number_place(a) == number_place(b)
}

/// Negating twice gives the number back, and negation mirrors the number line.
pub proof fn lemma_negate(bits: u64)
    ensures
        negated(negated(bits)) == bits,
        is_nan(negated(bits)) == is_nan(bits),
        place(negated(bits)) == -place(bits),
{
    assert((bits ^ SIGN_BIT) ^ SIGN_BIT == bits) by (bit_vector);
    assert((bits ^ SIGN_BIT) & MAGNITUDE_MASK == bits & MAGNITUDE_MASK) by (bit_vector);
    assert(((bits ^ SIGN_BIT) & SIGN_BIT != 0) == (bits & SIGN_BIT == 0)) by (bit_vector);
}

/// Numbers that are not NaN are totally ordered, and equality is what the order leaves.
pub proof fn lemma_order(a: u64, b: u64)
    requires
        !is_nan(a),
        !is_nan(b),
    ensures
        less(a, b) || same(a, b) || less(b, a),
        !(less(a, b) && less(b, a)),
        same(a, b) == (less_or_same(a, b) && less_or_same(b, a)),
        a == b ==> same(a, b),
        same(a, b) ==> a == b || (is_zero(a) && is_zero(b)),
{
    assert(a & MAGNITUDE_MASK == b & MAGNITUDE_MASK && ((a & SIGN_BIT != 0) == (b & SIGN_BIT
        != 0)) ==> a == b) by (bit_vector);
}

} // verus!
