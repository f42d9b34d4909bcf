use vstd::prelude::*;

verus! {

/// Saturating 64-bit addition, as a spec value.
pub open spec fn sat_add_u64(a: u64, b: u64) -> u64 {
    if a + b > u64::MAX {
        u64::MAX
    } else {
        (a + b) as u64
    }
}

/// Saturating 64-bit addition.
pub fn add_saturating(a: u64, b: u64) -> (r: u64)
    ensures
        r == sat_add_u64(a, b),
{
    if a <= u64::MAX - b {
        a + b
    } else {
        u64::MAX
    }
}

/// Saturating 64-bit subtraction, as a spec value.
pub open spec fn sat_sub_u64(a: u64, b: u64) -> u64 {
    if a >= b {
        (a - b) as u64
    } else {
        0
    }
}

/// Saturating 64-bit subtraction.
pub fn sub_saturating(a: u64, b: u64) -> (r: u64)
    ensures
        r == sat_sub_u64(a, b),
{
    if a >= b {
        a - b
    } else {
        0
    }
}

/// The quotient `a / b` rounded to the nearest integer, halves away from
/// zero; meaningful for `b > 0`.
pub open spec fn round_div(a: int, b: int) -> int {
    if a >= 0 {
        (2 * a + b) / (2 * b)
    } else {
        -((2 * (-a) + b) / (2 * b))
    }
}

/// The quotient `a / b` rounded to the nearest integer, halves away from
/// zero.
pub fn round_div_i64(a: i64, b: i64) -> (r: i64)
    requires
        1 <= b <= 0xffff,
        -0x2_0000_0000 <= a <= 0x2_0000_0000,
    ensures
        r == round_div(a as int, b as int),
{
    if a >= 0 {
        let q: u64 = (2 * (a as u64) + (b as u64)) / (2 * (b as u64));
        q as i64
    } else {
        let m: u64 = (-a) as u64;
        let q: u64 = (2 * m + (b as u64)) / (2 * (b as u64));
        -(q as i64)
    }
}

/// The product of two 64-bit values fits in 128 bits.
pub proof fn lemma_u64_mul_fits_u128(a: u64, b: u64)
    by (nonlinear_arith)
    ensures
        (a as int) * (b as int) <= 0xffffffffffffffff * 0xffffffffffffffff,
{
}

/// The product of two 16-bit values stays below 2^32.
pub proof fn lemma_u16_mul_bound(a: int, b: int)
    by (nonlinear_arith)
    requires
        0 <= a <= 0xffff,
        0 <= b <= 0xffff,
    ensures
        0 <= a * b <= 0xffff * 0xffff,
{
}

/// A product of a value below 2^16 and a signed value of magnitude at
/// most 2^16 keeps magnitude below 2^32.
pub proof fn lemma_mixed_mul_bound(a: int, b: int)
    by (nonlinear_arith)
    requires
        0 <= a <= 0xffff,
        -0x10000 <= b <= 0x10000,
    ensures
        -0x1_0000_0000 <= a * b <= 0x1_0000_0000,
{
}

} // verus!
