//! Numbers of the language as plain values.
//!
//! A number is a single-precision IEEE 754 value, held as its 32 bits. The
//! library never does arithmetic on it: it only carries numbers, flips their
//! sign and reads their truth value, which the bits show directly. Truth
//! values travel as two sentinel numbers, `1` and `-1`.

use vstd::prelude::*;

verus! {

#[derive(Copy, Clone, Debug, PartialEq, Eq, Structural)]
pub struct Number {
    pub bits: u32,
}

/// Bits of the number `1`, the sentinel for true.
pub const TRUE_BITS: u32 = 0x3f80_0000;

/// Bits of the number `-1`, the sentinel for false.
pub const FALSE_BITS: u32 = 0xbf80_0000;

/// Bits of positive infinity, the largest pattern that is greater than zero.
pub const INFINITY_BITS: u32 = 0x7f80_0000;

/// The sign bit.
pub const SIGN_BIT: u32 = 0x8000_0000;

/// A number counts as true when it is greater than zero: its sign bit is
/// clear, it is not a zero, and it is not a NaN.
pub open spec fn spec_is_truthy(v: Number) -> bool {
    0 < v.bits <= INFINITY_BITS
}

pub open spec fn spec_from_bool(v: bool) -> Number {
    if v {
        Number { bits: TRUE_BITS }
    } else {
        Number { bits: FALSE_BITS }
    }
}

/// The number with the opposite sign.
pub open spec fn spec_negate(v: Number) -> Number {
    Number { bits: v.bits ^ SIGN_BIT }
}

#[verifier::when_used_as_spec(spec_is_truthy)]
pub fn is_truthy(v: Number) -> (r: bool)
    ensures
        r == spec_is_truthy(v),
{
    0 < v.bits && v.bits <= INFINITY_BITS
}

#[verifier::when_used_as_spec(spec_from_bool)]
pub fn from_bool(v: bool) -> (r: Number)
    ensures
        r == spec_from_bool(v),
{
    if v {
        Number { bits: TRUE_BITS }
    } else {
        Number { bits: FALSE_BITS }
    }
}

#[verifier::when_used_as_spec(spec_negate)]
pub fn negate(v: Number) -> (r: Number)
    ensures
        r == spec_negate(v),
{
    Number { bits: v.bits ^ SIGN_BIT }
}

/// A sentinel reads back as the truth value it was made from.
pub proof fn lemma_sentinel_round_trip(v: bool)
    ensures
        spec_is_truthy(spec_from_bool(v)) == v,
{
}

/// Changing the sign twice gives the number back.
pub proof fn lemma_negate_twice(v: Number)
    ensures
        spec_negate(spec_negate(v)) == v,
{
    let b = v.bits;
    assert((b ^ 0x8000_0000u32) ^ 0x8000_0000u32 == b) by (bit_vector);
}

/// The two sentinels are each other's negation.
pub proof fn lemma_negate_sentinel(v: bool)
    ensures
        spec_negate(spec_from_bool(v)) == spec_from_bool(!v),
{
    assert(0x3f80_0000u32 ^ 0x8000_0000u32 == 0xbf80_0000u32) by (bit_vector);
    assert(0xbf80_0000u32 ^ 0x8000_0000u32 == 0x3f80_0000u32) by (bit_vector);
}

} // verus!
