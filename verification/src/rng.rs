//! A small xorshift32 pseudo-random generator for simulated values.
use vstd::prelude::*;

verus! {

/// The seed the generator starts from.
pub const SEED_INIT: u32 = 0x1234_5678;

/// One xorshift32 step (shifts 13, 17, 5).
pub open spec fn xorshift32(x: u32) -> u32 {
    let a = x ^ (x << 13u32);
    let b = a ^ (a >> 17u32);
    b ^ (b << 5u32)
}

/// Advances `seed` by one xorshift32 step and returns the new value.
pub fn xorshift32_next(seed: &mut u32) -> (x: u32)
    ensures
        x == xorshift32(*old(seed)),
        *final(seed) == x,
{
    let mut x = *seed;
    x ^= x << 13;
    x ^= x >> 17;
    x ^= x << 5;
    *seed = x;
    x
}

/// The smaller of two bounds.
pub open spec fn range_lo(a: u16, b: u16) -> u16 {
    if a <= b { a } else { b }
}

/// The larger of two bounds.
pub open spec fn range_hi(a: u16, b: u16) -> u16 {
    if a <= b { b } else { a }
}

/// A pseudo-random value in the closed range between `start_val` and
/// `end_val` (in either order), drawn from the xorshift32 generator whose
/// state is `seed`: the smaller bound plus the next generator output modulo
/// the width of the range.
pub fn Random(seed: &mut u32, start_val: u16, end_val: u16) -> (r: u16)
    ensures
        *final(seed) == xorshift32(*old(seed)),
        r == range_lo(start_val, end_val) + (xorshift32(*old(seed)) as int) % (range_hi(
            start_val,
            end_val,
        ) - range_lo(start_val, end_val) + 1),
        range_lo(start_val, end_val) <= r <= range_hi(start_val, end_val),
{
    let (lo, hi) = if start_val <= end_val {
        (start_val, end_val)
    } else {
        (end_val, start_val)
    };
    let span = (hi as u32).wrapping_sub(lo as u32).wrapping_add(1);
    let r = xorshift32_next(seed) % span;
    (lo as u32 + r) as u16
}

/// Whether a drawn value means "on": any value but 0.
pub fn u8_to_bool(value: u8) -> (b: bool)
    ensures
        b == (value != 0),
{
    value != 0
}

} // verus!
