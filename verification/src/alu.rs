//! Eight-bit arithmetic with its flag output.
//!
//! Every operation returns the value for the target register together with
//! the flag for `VF`, so that no caller can drop the flag by accident.
use vstd::prelude::*;

verus! {

/// `a + b` modulo 256.
pub open spec fn wrapped_sum(a: u8, b: u8) -> u8 {
    ((a + b) % 256) as u8
}

/// 1 if `a + b` does not fit in eight bits, else 0.
pub open spec fn carry(a: u8, b: u8) -> u8 {
    if a + b > 0xFF {
        1
    } else {
        0
    }
}

/// `a - b` modulo 256.
pub open spec fn wrapped_difference(a: u8, b: u8) -> u8 {
    ((a - b) % 256) as u8
}

/// 1 if `a - b` needs no borrow, that is if `a >= b`, else 0.
pub open spec fn no_borrow(a: u8, b: u8) -> u8 {
    if a >= b {
        1
    } else {
        0
    }
}

/// `a` shifted right by one bit.
pub open spec fn halved(a: u8) -> u8 {
    a / 2
}

/// The least significant bit of `a`.
pub open spec fn low_bit(a: u8) -> u8 {
    a % 2
}

/// `a` shifted left by one bit, modulo 256.
pub open spec fn doubled(a: u8) -> u8 {
    ((a * 2) % 256) as u8
}

/// The most significant bit of `a`.
pub open spec fn high_bit(a: u8) -> u8 {
    a / 128
}

/// Value and flag together hold the exact result of each operation: the
/// flag is the ninth bit of a sum, the borrow of a difference, and the bit
/// that a shift pushes out.
pub proof fn lemma_flag_completes_value(a: u8, b: u8)
    ensures
        wrapped_sum(a, b) + 256 * carry(a, b) == a + b,
        wrapped_difference(a, b) - 256 * (1 - no_borrow(a, b)) == a - b,
        2 * halved(a) + low_bit(a) == a,
        doubled(a) + 256 * high_bit(a) == 2 * a,
        carry(a, b) <= 1,
        no_borrow(a, b) <= 1,
        low_bit(a) <= 1,
        high_bit(a) <= 1,
{
}

/// Adds without a flag.
pub fn add_wrapping(a: u8, b: u8) -> (value: u8)
    ensures
        value == wrapped_sum(a, b),
{
    a.wrapping_add(b)
}

/// Adds; the flag is the carry.
pub fn add_with_carry(a: u8, b: u8) -> (r: (u8, u8))
    ensures
        r == (wrapped_sum(a, b), carry(a, b)),
{
    let flag: u8 = if a as u16 + b as u16 > 0xFF {
        1
    } else {
        0
    };
    (a.wrapping_add(b), flag)
}

/// Subtracts `b` from `a`; the flag is 1 where no borrow occurred.
pub fn sub_with_borrow(a: u8, b: u8) -> (r: (u8, u8))
    ensures
        r == (wrapped_difference(a, b), no_borrow(a, b)),
{
    let flag: u8 = if a >= b {
        1
    } else {
        0
    };
    (a.wrapping_sub(b), flag)
}

/// Shifts right by one; the flag is the bit shifted out.
pub fn shift_right(a: u8) -> (r: (u8, u8))
    ensures
        r == (halved(a), low_bit(a)),
{
    assert(a >> 1 == a / 2 && a & 1 == a % 2) by (bit_vector);
    (a >> 1, a & 1)
}

/// Shifts left by one; the flag is the bit shifted out.
pub fn shift_left(a: u8) -> (r: (u8, u8))
    ensures
        r == (doubled(a), high_bit(a)),
{
    assert(a << 1 == (a * 2) % 256 && a >> 7 == a / 128) by (bit_vector);
    (a << 1, a >> 7)
}

} // verus!
