//! Conversions between the integer types of offsets and lengths, and
//! counting in byte strings.

use vstd::prelude::*;
use vstd::std_specs::convert::TryFromSpec;
use std::num::TryFromIntError;
use crate::error::Error;

verus! {

/// The error of an offset or a length that its integer type cannot carry.
pub fn make_to_usize_io_error() -> (error: Error)
    ensures
        error == Error::Conversion,
{
    Error::Conversion
}

/// `from` as an integer of the type `T`, or [`Error::Conversion`] where
/// `T` has no such value.
pub fn convert_int_io<F, T>(from: F) -> (to: Result<T, Error>) where
    T: TryFrom<F, Error = TryFromIntError>,

    ensures
        T::obeys_try_from_spec() ==> match T::try_from_spec(from) {
            Ok(value) => to == Ok::<T, Error>(value),
            Err(_) => to == Err::<T, Error>(Error::Conversion),
        },
{
    match T::try_from(from) {
        Ok(value) => Ok(value),
        Err(_) => Err(make_to_usize_io_error()),
    }
}

/// `from` as a `usize`, or [`Error::Conversion`] where it has none.
pub fn to_usize_io<F>(from: F) -> (to: Result<usize, Error>) where
    usize: TryFrom<F, Error = TryFromIntError>,

    ensures
        <usize as TryFromSpec<F>>::obeys_try_from_spec() ==> match <usize as TryFromSpec<
            F,
        >>::try_from_spec(from) {
            Ok(value) => to == Ok::<usize, Error>(value),
            Err(_) => to == Err::<usize, Error>(Error::Conversion),
        },
{
    convert_int_io(from)
}

/// The number that `bytes` is in base 256, with the first byte as the
/// most significant digit.
pub open spec fn big_endian_value(bytes: Seq<u8>) -> nat
    decreases bytes.len(),
{
    if bytes.len() == 0 {
        0
    } else {
        big_endian_value(bytes.drop_last()) * 256 + bytes.last() as nat
    }
}

/// Whether every byte of `bytes` is the largest byte.
pub open spec fn all_bytes_max(bytes: Seq<u8>) -> bool {
    forall|i: int| 0 <= i < bytes.len() ==> bytes[i] == u8::MAX
}

/// Whether `after` is `before` after a carry that stopped at the byte
/// `at`: that byte is one higher, the bytes before it are as they were,
/// and the bytes behind it, which were the largest byte, are zero.
pub open spec fn carry_stops_at(before: Seq<u8>, after: Seq<u8>, at: int) -> bool {
    &&& before.len() == after.len()
    &&& 0 <= at < before.len()
    &&& before[at] < u8::MAX
    &&& after[at] == before[at] + 1
    &&& forall|i: int| 0 <= i < at ==> after[i] == before[i]
    &&& forall|i: int| at < i < before.len() ==> before[i] == u8::MAX
    &&& forall|i: int| at < i < before.len() ==> after[i] == 0
}

/// A carry that stops at the byte `at` adds one to the number.
pub proof fn lemma_carry_adds_one(before: Seq<u8>, after: Seq<u8>, at: int)
    requires
        carry_stops_at(before, after, at),
    ensures
        big_endian_value(after) == big_endian_value(before) + 1,
    decreases before.len(),
{
    if at == before.len() - 1 {
        assert(before.drop_last() =~= after.drop_last());
    } else {
        lemma_carry_adds_one(before.drop_last(), after.drop_last(), at);
    }
}

/// A byte string of zeros is the number zero.
pub proof fn lemma_zeros_are_zero(bytes: Seq<u8>)
    requires
        forall|i: int| 0 <= i < bytes.len() ==> bytes[i] == 0,
    ensures
        big_endian_value(bytes) == 0,
    decreases bytes.len(),
{
    if bytes.len() > 0 {
        lemma_zeros_are_zero(bytes.drop_last());
    }
}

/// Adds one to the number that `arr` is in base 256, with the first byte
/// as the most significant digit: the last byte goes up by one, and a
/// byte that was the largest turns to zero and carries to the byte before
/// it. Returns `false` if the carry runs off the front: every byte was
/// the largest, and all are zero now.
pub fn inc_big_endian_array(arr: &mut [u8]) -> (incremented: bool)
    ensures
        final(arr)@.len() == old(arr)@.len(),
        incremented == !all_bytes_max(old(arr)@),
        incremented ==> big_endian_value(final(arr)@) == big_endian_value(old(arr)@) + 1,
        incremented ==> exists|at: int| #[trigger] carry_stops_at(old(arr)@, final(arr)@, at),
        !incremented ==> big_endian_value(final(arr)@) == 0 && forall|i: int|
            0 <= i < final(arr)@.len() ==> final(arr)@[i] == 0,
{
    let ghost before = arr@;
    let mut i: usize = arr.len();
    let mut incremented = false;
    while i > 0 && !incremented
        invariant
            i <= arr@.len(),
            arr@.len() == before.len(),
            !incremented ==> forall|j: int| 0 <= j < i ==> arr@[j] == before[j],
            !incremented ==> forall|j: int| i <= j < before.len() ==> before[j] == u8::MAX,
            !incremented ==> forall|j: int| i <= j < before.len() ==> arr@[j] == 0,
            incremented ==> !all_bytes_max(before) && big_endian_value(arr@) == big_endian_value(
                before,
            ) + 1,
            incremented ==> carry_stops_at(before, arr@, i as int),
        decreases i + if incremented { 0int } else { 1int },
    {
        i -= 1;
        if arr[i] == u8::MAX {
            arr[i] = 0;
        } else {
            arr[i] = arr[i] + 1;
            incremented = true;
            proof {
                lemma_carry_adds_one(before, arr@, i as int);
            }
        }
    }
    proof {
        if !incremented {
            lemma_zeros_are_zero(arr@);
        }
    }
    incremented
}

} // verus!
