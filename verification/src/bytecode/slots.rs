//! A fixed-capacity vector of 64-bit words, as the constant pool and the
//! operand stack use it.  The vector is `arrayvec::ArrayVec`; what this module
//! says of it is taken from its source and is not proved here.
use arrayvec::ArrayVec;
use arrayvec::CapacityError;
use vstd::prelude::*;

verus! {

/// `arrayvec::ArrayVec`, a vector of at most `CAP` elements that are stored
/// in place.  The library only passes values of it on.
#[verifier::external_type_specification]
#[verifier::external_body]
#[verifier::reject_recursive_types(T)]
pub struct ExArrayVec<T, const CAP: usize>(ArrayVec<T, CAP>);

/// `arrayvec::CapacityError`, the error of a push onto a full vector.
#[verifier::external_type_specification]
#[verifier::external_body]
#[verifier::reject_recursive_types(T)]
pub struct ExCapacityError<T>(CapacityError<T>);

/// How many words a vector can hold.
pub const CAPACITY: usize = 256;

/// The words that the vector holds, oldest first.
pub uninterp spec fn items(v: ArrayVec<u64, 256>) -> Seq<u64>;

/// `ArrayVec::new`: a vector that holds nothing.
#[verifier::external_body]
pub(crate) fn slots_new() -> (v: ArrayVec<u64, 256>)
    ensures
        items(v) == Seq::<u64>::empty(),
{
    ArrayVec::new()
}

/// `ArrayVec::len`: the number of words held, which never exceeds the capacity.
#[verifier::external_body]
pub(crate) fn slots_len(v: &ArrayVec<u64, 256>) -> (n: usize)
    ensures
        n == items(*v).len(),
        n <= CAPACITY,
{
    v.len()
}

/// `ArrayVec::try_push`: appends `x` if fewer than 256 words are held, and
/// otherwise changes nothing and returns an error.
#[verifier::external_body]
pub(crate) fn slots_try_push(v: &mut ArrayVec<u64, 256>, x: u64) -> (r: Result<
    (),
    CapacityError<u64>,
>)
    ensures
        items(*old(v)).len() < CAPACITY ==> r is Ok && items(*final(v)) == items(*old(v)).push(x),
        items(*old(v)).len() >= CAPACITY ==> r is Err && items(*final(v)) == items(*old(v)),
{
    v.try_push(x)
}

/// `ArrayVec::pop`: removes and returns the newest word, or returns `None`
/// and changes nothing if no word is held.
#[verifier::external_body]
pub(crate) fn slots_pop(v: &mut ArrayVec<u64, 256>) -> (r: Option<u64>)
    ensures
        match r {
            Some(x) => items(*old(v)).len() > 0 && x == items(*old(v)).last() && items(*final(v))
                == items(*old(v)).drop_last(),
            None => items(*old(v)).len() == 0 && items(*final(v)) == items(*old(v)),
        },
{
    v.pop()
}

/// Indexing through `ArrayVec::as_slice`: the `i`-th word.
#[verifier::external_body]
pub(crate) fn slots_get(v: &ArrayVec<u64, 256>, i: usize) -> (x: u64)
    requires
        i < items(*v).len(),
    ensures
        x == items(*v)[i as int],
{
    v.as_slice()[i]
}

/// Assignment through `ArrayVec::as_mut_slice`: the `i`-th word becomes `x`.
#[verifier::external_body]
pub(crate) fn slots_set(v: &mut ArrayVec<u64, 256>, i: usize, x: u64)
    requires
        i < items(*old(v)).len(),
    ensures
        items(*final(v)) == items(*old(v)).update(i as int, x),
{
    v.as_mut_slice()[i] = x;
}

} // verus!
