//! Values of the bytecode machine, boxed into the bit patterns of doubles.
//!
//! A double whose exponent bits and two highest fraction bits are all set is
//! a NaN that arithmetic does not produce.  Those patterns carry everything
//! that is not a number: with the sign bit clear, the low bits tell `nil`,
//! `true` and `false` apart; with the sign bit set, they are an object handle.
use vstd::prelude::*;

use crate::bytecode::object::Object;
use crate::error::{LoxError, LoxErrorView};

verus! {

/// The sign bit.
pub const SIGN_BIT: u64 = 0x8000_0000_0000_0000;

/// The bits that are all set in a value that is not a number.
pub const QNAN_BIT: u64 = 0x7FFC_0000_0000_0000;

/// The sign bit and the not-a-number bits together: the tag of an object.
pub const OBJECT_TAG: u64 = 0xFFFC_0000_0000_0000;

/// The bits of an object value that hold the handle.
pub const HANDLE_MASK: u64 = 0x0003_FFFF_FFFF_FFFF;

/// The word of `nil`.
pub const NIL_BITS: u64 = 0x7FFC_0000_0000_0001;

/// The word of `true`.
pub const TRUE_BITS: u64 = 0x7FFC_0000_0000_0002;

/// The word of `false`.
pub const FALSE_BITS: u64 = 0x7FFC_0000_0000_0003;

/// A value in one 64-bit word.
#[derive(Clone, Copy, Debug, PartialEq, Eq, Structural)]
pub struct Value(pub u64);

/// What a boxed value is.
pub enum Unboxed {
    /// A number, by the bits of its double.
    Number(u64),
    Nil,
    Boolean(bool),
    /// An object, by its handle.
    Object(u64),
    /// A pattern that no constructor makes.
    Unused(u64),
}

/// What the word `bits` is as a value.
pub open spec fn unbox(bits: u64) -> Unboxed {
    if bits & QNAN_BIT != QNAN_BIT {
        Unboxed::Number(bits)
    } else if bits & OBJECT_TAG == OBJECT_TAG {
        Unboxed::Object(bits & HANDLE_MASK)
    } else if bits == NIL_BITS {
        Unboxed::Nil
    } else if bits == TRUE_BITS {
        Unboxed::Boolean(true)
    } else if bits == FALSE_BITS {
        Unboxed::Boolean(false)
    } else {
        Unboxed::Unused(bits)
    }
}

/// Whether a value counts as false: only `nil` and `false` do.
pub open spec fn falsey(v: Unboxed) -> bool {
    v == Unboxed::Nil || v == Unboxed::Boolean(false)
}

impl View for Value {
    type V = Unboxed;

    open spec fn view(&self) -> Unboxed {
        unbox(self.0)
    }
}

/// A number that is not NaN is boxed as itself and is read back as itself.
pub proof fn lemma_number_round_trip(bits: u64)
    requires
        !crate::number::is_nan(bits),
    ensures
        unbox(bits) == Unboxed::Number(bits),
{
    assert((bits & 0x7FFF_FFFF_FFFF_FFFF) <= 0x7FF0_0000_0000_0000 ==> bits & QNAN_BIT
        != QNAN_BIT) by (bit_vector);
}

/// A handle of at most 50 bits is boxed into an object value that gives it back.
pub proof fn lemma_object_round_trip(handle: u64)
    ensures
        unbox((handle & HANDLE_MASK) | OBJECT_TAG) == Unboxed::Object(handle & HANDLE_MASK),
        handle <= HANDLE_MASK ==> handle & HANDLE_MASK == handle,
{
    assert(((handle & HANDLE_MASK) | OBJECT_TAG) & QNAN_BIT == QNAN_BIT && ((handle & HANDLE_MASK)
        | OBJECT_TAG) & OBJECT_TAG == OBJECT_TAG && ((handle & HANDLE_MASK) | OBJECT_TAG)
        & HANDLE_MASK == handle & HANDLE_MASK) by (bit_vector);
    assert(handle <= HANDLE_MASK ==> handle & HANDLE_MASK == handle) by (bit_vector);
}

/// The three constants are what their names say.
pub proof fn lemma_constants()
    ensures
        unbox(NIL_BITS) == Unboxed::Nil,
        unbox(TRUE_BITS) == Unboxed::Boolean(true),
        unbox(FALSE_BITS) == Unboxed::Boolean(false),
{
    assert(NIL_BITS & QNAN_BIT == QNAN_BIT && NIL_BITS & OBJECT_TAG != OBJECT_TAG) by (bit_vector);
    assert(TRUE_BITS & QNAN_BIT == QNAN_BIT && TRUE_BITS & OBJECT_TAG != OBJECT_TAG)
        by (bit_vector);
    assert(FALSE_BITS & QNAN_BIT == QNAN_BIT && FALSE_BITS & OBJECT_TAG != OBJECT_TAG)
        by (bit_vector);
}

impl Value {
    /// The value `nil`.
    pub fn nil() -> (v: Value)
        ensures
            v@ == Unboxed::Nil,
            v.0 == NIL_BITS,
    {
        proof {
            lemma_constants();
        }
        Value(NIL_BITS)
    }

    /// The value of the Boolean `b`.
    pub fn from_bool(b: bool) -> (v: Value)
        ensures
            v@ == Unboxed::Boolean(b),
            v.0 == if b {
                TRUE_BITS
            } else {
                FALSE_BITS
            },
    {
        proof {
            lemma_constants();
        }
        if b {
            Value(TRUE_BITS)
        } else {
            Value(FALSE_BITS)
        }
    }

    /// The value whose word is the double `bits`.  It is that number unless
    /// `bits` is one of the NaN patterns that are set apart for other values.
    pub fn from_number(bits: u64) -> (v: Value)
        ensures
            v.0 == bits,
            !crate::number::is_nan(bits) ==> v@ == Unboxed::Number(bits),
    {
        proof {
            if !crate::number::is_nan(bits) {
                lemma_number_round_trip(bits);
            }
        }
        Value(bits)
    }

    /// The value of the object `o`.  Of its handle the low 50 bits are kept,
    /// which is all of it for a handle that a pool gave out.
    pub fn from_object(o: Object) -> (v: Value)
        ensures
            v.0 == (o.handle & HANDLE_MASK) | OBJECT_TAG,
            v@ == Unboxed::Object(o.handle & HANDLE_MASK),
            o.handle <= HANDLE_MASK ==> v@ == Unboxed::Object(o.handle),
    {
        proof {
            lemma_object_round_trip(o.handle);
        }
        Value((o.handle & HANDLE_MASK) | OBJECT_TAG)
    }

    /// The word of the value.
    pub fn bits(&self) -> (b: u64)
        ensures
            b == self.0,
    {
        self.0
    }

    /// Whether the value is a number.
    pub fn is_number(&self) -> (r: bool)
        ensures
            r == (self@ is Number),
    {
        (self.0 & QNAN_BIT) != QNAN_BIT
    }

    /// Whether the value is an object.
    pub fn is_object(&self) -> (r: bool)
        ensures
            r == (self@ is Object),
    {
        (self.0 & QNAN_BIT) == QNAN_BIT && (self.0 & OBJECT_TAG) == OBJECT_TAG
    }

    /// Whether the value is a string.  Every object is one.
    pub fn is_str(&self) -> (r: bool)
        ensures
            r == (self@ is Object),
    {
        self.is_object()
    }

    /// Whether the value is `nil`.
    pub fn is_nil(&self) -> (r: bool)
        ensures
            r == (self@ is Nil),
    {
        proof {
            lemma_constants();
        }
        self.0 == NIL_BITS
    }

    /// Whether the value is `true`.
    pub fn is_true(&self) -> (r: bool)
        ensures
            r == (self@ == Unboxed::Boolean(true)),
    {
        proof {
            lemma_constants();
        }
        self.0 == TRUE_BITS
    }

    /// Whether the value is `false`.
    pub fn is_false(&self) -> (r: bool)
        ensures
            r == (self@ == Unboxed::Boolean(false)),
    {
        proof {
            lemma_constants();
        }
        self.0 == FALSE_BITS
    }

    /// Whether the value counts as false.
    pub fn is_falsey(&self) -> (r: bool)
        ensures
            r == falsey(self@),
    {
        self.is_false() || self.is_nil()
    }

    /// The Boolean that the value is.
    pub fn try_bool(&self) -> (r: Result<bool, LoxError>)
        ensures
            match self@ {
                Unboxed::Boolean(b) => r == Ok::<bool, LoxError>(b),
                _ => r is Err && r->Err_0@ == LoxErrorView::ConversionError("bool"@),
            },
    {
        if self.is_true() {
            Ok(true)
        } else if self.is_false() {
            Ok(false)
        } else {
            Err(LoxError::conversion("bool"))
        }
    }

    /// The bits of the number that the value is.
    pub fn try_number(&self) -> (r: Result<u64, LoxError>)
        ensures
            match self@ {
                Unboxed::Number(bits) => r == Ok::<u64, LoxError>(bits),
                _ => r is Err && r->Err_0@ == LoxErrorView::ConversionError("number"@),
            },
    {
        if self.is_number() {
            Ok(self.0)
        } else {
            Err(LoxError::conversion("number"))
        }
    }

    /// The object that the value is, if it is one.
    pub fn as_object(&self) -> (r: Option<Object>)
        ensures
            match self@ {
                Unboxed::Object(handle) => r == Some(Object { handle }),
                _ => r is None,
            },
    {
        if self.is_object() {
            Some(Object { handle: self.0 & HANDLE_MASK })
        } else {
            None
        }
    }
}

} // verus!
