//! Wraparound-safe comparison and range membership over the 32-bit TCP
//! sequence-number space (RFC 793 section 3.3).
//!
//! A sequence number `a` is "before" `b` exactly when the two's-complement
//! 32-bit difference `a - b` has its sign bit set; range membership measures
//! modular distances from the start of the range.

use vstd::prelude::*;

verus! {

/// `a - b` in the 32-bit modular sequence space.
pub open spec fn wrap_sub(a: u32, b: u32) -> u32 {
    vstd::wrapping::u32_specs::wrapping_sub(a, b)
}

/// `a + b` in the 32-bit modular sequence space.
pub open spec fn wrap_add(a: u32, b: u32) -> u32 {
    vstd::wrapping::u32_specs::wrapping_add(a, b)
}

/// `a` comes before `b`: the modular difference `a - b`, read as a
/// two's-complement 32-bit value, is negative.
pub open spec fn seq_lt(a: u32, b: u32) -> bool {
    wrap_sub(a, b) >= 0x8000_0000
}

/// `a` comes before `b`, or equals it.
pub open spec fn seq_le(a: u32, b: u32) -> bool {
    a == b || seq_lt(a, b)
}

/// `start <= x < end` under wraparound: the modular distance from `start`
/// to `x` is strictly shorter than the modular distance from `start` to
/// `end`.
pub open spec fn seq_in_range(x: u32, start: u32, end: u32) -> bool {
    wrap_sub(x, start) < wrap_sub(end, start)
}

/// Wraparound-aware strict ordering of sequence numbers.
pub fn lt(a: u32, b: u32) -> (r: bool)
    ensures
        r == seq_lt(a, b),
{
    a.wrapping_sub(b) >= 0x8000_0000
}

/// Wraparound-aware non-strict ordering of sequence numbers.
pub fn le(a: u32, b: u32) -> (r: bool)
    ensures
        r == seq_le(a, b),
{
    a == b || lt(a, b)
}

/// Wraparound-aware membership of `x` in the half-open range
/// `[start, end)`.
pub fn in_range(x: u32, start: u32, end: u32) -> (r: bool)
    ensures
        r == seq_in_range(x, start, end),
{
    x.wrapping_sub(start) < end.wrapping_sub(start)
}

/// Shift invariance: moving both operands half way around the sequence
/// space leaves the ordering unchanged.
pub proof fn lemma_lt_shift_invariant(a: u32, b: u32)
    ensures
        seq_lt(a, b) == seq_lt(wrap_add(a, 0x8000_0000), wrap_add(b, 0x8000_0000)),
{
}

/// Asymmetry: two distinct sequence numbers are ordered one way only,
/// except when they lie exactly half the space apart, where the
/// sign-bit test calls each "before" the other.
pub proof fn lemma_lt_asymmetric(a: u32, b: u32)
    requires
        a != b,
        wrap_sub(a, b) != 0x8000_0000,
    ensures
        seq_lt(a, b) != seq_lt(b, a),
{
}

/// Every sequence number comes before its successor.
pub proof fn lemma_lt_succ(x: u32)
    ensures
        seq_lt(x, wrap_add(x, 1)),
{
}

} // verus!
