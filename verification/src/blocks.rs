//! Rounding of offsets to block boundaries.

use vstd::prelude::*;

verus! {

/// The largest multiple of `multiple` that is not above `value`.
pub open spec fn floored_multiple_spec(value: int, multiple: int) -> int {
    multiple * (value / multiple)
}

/// The smallest multiple of `multiple` that is not below `value`.
pub open spec fn ceil_multiple_spec(value: int, multiple: int) -> int {
    (value + multiple - 1) / multiple * multiple
}

/// `floored_multiple_spec` is a multiple of `multiple`, and the one that
/// lies less than one `multiple` below `value`.
pub proof fn lemma_floored_multiple(value: int, multiple: int)
    requires
        multiple > 0,
    ensures
        floored_multiple_spec(value, multiple) % multiple == 0,
        floored_multiple_spec(value, multiple) <= value < floored_multiple_spec(value, multiple)
            + multiple,
{
    let q = value / multiple;
    vstd::arithmetic::div_mod::lemma_fundamental_div_mod(value, multiple);
    vstd::arithmetic::div_mod::lemma_mod_bound(value, multiple);
    vstd::arithmetic::div_mod::lemma_mod_multiples_basic(q, multiple);
    assert(multiple * q == q * multiple) by (nonlinear_arith);
}

/// `ceil_multiple_spec` is a multiple of `multiple`, and the one that lies
/// less than one `multiple` above `value`.
pub proof fn lemma_ceil_multiple(value: int, multiple: int)
    requires
        multiple > 0,
    ensures
        ceil_multiple_spec(value, multiple) % multiple == 0,
        value <= ceil_multiple_spec(value, multiple) < value + multiple,
{
    let shifted = value + multiple - 1;
    lemma_floored_multiple(shifted, multiple);
    assert(shifted / multiple * multiple == multiple * (shifted / multiple))
        by (nonlinear_arith);
}

/// A value that is a multiple of `multiple` is its own floor and ceiling.
pub proof fn lemma_multiple_is_fixed(value: int, multiple: int)
    requires
        multiple > 0,
        value % multiple == 0,
    ensures
        floored_multiple_spec(value, multiple) == value,
        ceil_multiple_spec(value, multiple) == value,
{
    lemma_floored_multiple(value, multiple);
    lemma_ceil_multiple(value, multiple);
    let f = floored_multiple_spec(value, multiple);
    let c = ceil_multiple_spec(value, multiple);
    lemma_multiples_apart(f, value, multiple);
    lemma_multiples_apart(value, c, multiple);
}

/// Two multiples of `multiple` that lie less than `multiple` apart are equal.
pub proof fn lemma_multiples_apart(low: int, high: int, multiple: int)
    requires
        multiple > 0,
        low % multiple == 0,
        high % multiple == 0,
        low <= high < low + multiple,
    ensures
        low == high,
{
    vstd::arithmetic::div_mod::lemma_fundamental_div_mod(low, multiple);
    vstd::arithmetic::div_mod::lemma_fundamental_div_mod(high, multiple);
    let a = low / multiple;
    let b = high / multiple;
    assert(a == b) by (nonlinear_arith)
        requires
            multiple > 0,
            multiple * a <= multiple * b < multiple * a + multiple,
    {}
}

/// Rounds `value` down to a multiple of `multiple`.
pub fn floored_multiple(value: u64, multiple: u64) -> (floor: u64)
    requires
        multiple > 0,
    ensures
        floor == floored_multiple_spec(value as int, multiple as int),
        floor % multiple == 0,
        floor <= value < floor + multiple,
{
    proof {
        lemma_floored_multiple(value as int, multiple as int);
    }
    multiple * (value / multiple)
}

/// Rounds `value` up to a multiple of `multiple`.
pub fn ceil_multiple(value: u64, multiple: u64) -> (ceil: u64)
    requires
        multiple > 0,
        value + multiple <= u64::MAX,
    ensures
        ceil == ceil_multiple_spec(value as int, multiple as int),
        ceil % multiple == 0,
        value <= ceil < value + multiple,
{
    proof {
        lemma_ceil_multiple(value as int, multiple as int);
        lemma_floored_multiple(value + multiple - 1, multiple as int);
        assert((value + multiple - 1) / (multiple as int) * multiple == multiple * ((value
            + multiple - 1) / (multiple as int))) by (nonlinear_arith);
    }
    (value + multiple - 1) / multiple * multiple
}

/// Rounds `value` up to a multiple of `multiple`, or reports that there is
/// no such multiple: `multiple` is zero, or the result is above `u64::MAX`.
pub fn checked_ceil_multiple(value: u64, multiple: u64) -> (ceil: Option<u64>)
    ensures
        ceil is Some <==> multiple > 0 && ceil_multiple_spec(value as int, multiple as int)
            <= u64::MAX,
        ceil is Some ==> ceil->0 == ceil_multiple_spec(value as int, multiple as int),
{
    if multiple == 0 {
        return None;
    }
    let floor = floored_multiple(value, multiple);
    proof {
        lemma_ceil_multiple(value as int, multiple as int);
        if floor == value {
            lemma_multiple_is_fixed(value as int, multiple as int);
        } else {
            let ceil = ceil_multiple_spec(value as int, multiple as int);
            lemma_multiple_mod_add(floor as int, multiple as int);
            if ceil < floor + multiple {
                lemma_multiples_apart(floor as int, ceil, multiple as int);
            }
            lemma_multiples_apart(floor + multiple, ceil, multiple as int);
        }
    }
    if floor == value {
        Some(value)
    } else if floor > u64::MAX - multiple {
        None
    } else {
        Some(floor + multiple)
    }
}

/// The multiple that follows a multiple is a multiple.
pub proof fn lemma_multiple_mod_add(value: int, multiple: int)
    requires
        multiple > 0,
        value % multiple == 0,
    ensures
        (value + multiple) % multiple == 0,
{
    vstd::arithmetic::div_mod::lemma_mod_add_multiples_vanish(value, multiple);
}

} // verus!
