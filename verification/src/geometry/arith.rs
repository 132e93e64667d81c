//! Integer helpers shared by the geometry: absolute value, halving, division
//! by one million rounded to the nearest integer, and the integer square root.
use vstd::prelude::*;

verus! {

/// Absolute value.
pub open spec fn abs(v: int) -> int {
    if v < 0 {
        -v
    } else {
        v
    }
}

/// Half of `v`, rounded toward zero.
pub open spec fn half(v: int) -> int {
    if v < 0 {
        -((-v) / 2)
    } else {
        v / 2
    }
}

/// `n` divided by one million and rounded to the nearest integer, a tie going
/// away from zero.
pub open spec fn scale_down(n: int) -> int {
    if n < 0 {
        -((2 * (-n) + 1_000_000) / 2_000_000)
    } else {
        (2 * n + 1_000_000) / 2_000_000
    }
}

/// Largest magnitude that `scale_down_wide` accepts.
pub const SCALE_DOWN_LIMIT: i128 = 0x1000_0000_0000_0000_0000_0000_0000_0000;

/// Half of `v`, rounded toward zero.
pub fn half_of(v: i64) -> (h: i64)
    ensures
        h == half(v as int),
{
    v / 2
}

/// Divides `n` by one million, rounding to the nearest integer and a tie away
/// from zero.
pub fn scale_down_wide(n: i128) -> (q: i128)
    requires
        -SCALE_DOWN_LIMIT <= n <= SCALE_DOWN_LIMIT,
    ensures
        q == scale_down(n as int),
{
    if n < 0 {
        -((2 * (-n) + 1_000_000) / 2_000_000)
    } else {
        (2 * n + 1_000_000) / 2_000_000
    }
}

/// Scaling down is off from the exact quotient by at most a half.
pub proof fn lemma_scale_down_error(n: int)
    ensures
        abs(scale_down(n) * 1_000_000 - n) <= 500_000,
{
}

/// A number within `k` millions of zero scales down to one within `k`.
pub proof fn lemma_scale_down_bound(n: int, k: int)
    requires
        abs(n) <= k * 1_000_000,
    ensures
        abs(scale_down(n)) <= k,
{
}

/// The integer square root: the largest `r` whose square does not exceed `n`.
pub fn integer_sqrt(n: u128) -> (r: u64)
    ensures
        r * r <= n < (r + 1) * (r + 1),
{
    let mut lo: u128 = 0;
    let mut hi: u128 = 0x1_0000_0000_0000_0000;
    while hi - lo > 1
        invariant
            lo < hi <= 0x1_0000_0000_0000_0000,
            lo * lo <= n,
            n < hi * hi,
        decreases hi - lo,
    {
        let mid: u128 = lo + (hi - lo) / 2;
        assert(mid * mid <= 0xffff_ffff_ffff_ffff * 0xffff_ffff_ffff_ffff) by (nonlinear_arith)
            requires
                0 <= mid <= 0xffff_ffff_ffff_ffff,
        ;
        if mid * mid <= n {
            lo = mid;
        } else {
            hi = mid;
        }
    }
    lo as u64
}

} // verus!
