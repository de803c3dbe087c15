use vstd::prelude::*;
use vstd::arithmetic::div_mod::lemma_fundamental_div_mod_converse;

verus! {

/// The factor that stands for the whole of something: factors are counted in millionths.
pub const FACTOR_ONE: i64 = 1_000_000;

/// Largest magnitude that [`floor_div`] and [`round_div`] take for a numerator or a divisor.
pub const DIV_LIMIT: i128 = 0x4000_0000_0000_0000_0000_0000_0000_0000;

/// The integer nearest to `v` that an `i64` can hold.
pub open spec fn saturated(v: int) -> i64 {
    if v < i64::MIN {
        i64::MIN
    } else if v > i64::MAX {
        i64::MAX
    } else {
        v as i64
    }
}

/// `v` kept within `lo ..= hi`.
pub open spec fn clamped(v: int, lo: int, hi: int) -> int {
    if v < lo {
        lo
    } else if v > hi {
        hi
    } else {
        v
    }
}

/// The quotient `num / den` rounded to the nearest integer, halves upwards.
pub open spec fn rounded_div(num: int, den: int) -> int
    recommends
        den > 0,
{
    (2 * num + den) / (2 * den)
}

/// A quotient is pinned down by the multiple of the divisor just below the dividend.
pub proof fn lemma_div_unique(x: int, d: int, q: int)
    requires
        d > 0,
        q * d <= x < q * d + d,
    ensures
        x / d == q,
{
    lemma_fundamental_div_mod_converse(x, d, q, x - q * d);
}

/// Dividing by a positive divisor keeps the order of the dividends.
pub proof fn lemma_div_monotonic(x: int, y: int, d: int)
    requires
        d > 0,
        x <= y,
    ensures
        x / d <= y / d,
{
    vstd::arithmetic::div_mod::lemma_div_is_ordered(x, y, d);
}

/// The value of `v` as an `i64`, or the nearest end of the `i64` range.
pub fn saturate(v: i128) -> (r: i64)
    ensures
        r == saturated(v as int),
{
    if v < i64::MIN as i128 {
        i64::MIN
    } else if v > i64::MAX as i128 {
        i64::MAX
    } else {
        v as i64
    }
}

/// The floor of `num / den` for a positive divisor.
pub fn floor_div(num: i128, den: i128) -> (q: i128)
    requires
        0 < den <= DIV_LIMIT,
        -DIV_LIMIT <= num <= DIV_LIMIT,
    ensures
        q == num as int / den as int,
{
    if num >= 0 {
        num / den
    } else {
        let m: i128 = -num;
        let up: i128 = (m + (den - 1)) / den;
        proof {
            let n = num as int;
            let d = den as int;
            let u = up as int;
            assert(u == (-n + d - 1) / d);
            assert(u * d <= -n + d - 1 < u * d + d) by (nonlinear_arith)
                requires
                    d > 0,
                    u == (-n + d - 1) / d,
            ;
            assert((-u) * d == -(u * d)) by (nonlinear_arith);
            lemma_div_unique(n, d, -u);
        }
        -up
    }
}

/// `num / den` rounded to the nearest integer, halves upwards, for a positive divisor.
pub fn round_div(num: i128, den: i128) -> (q: i128)
    requires
        0 < den <= DIV_LIMIT / 4,
        -DIV_LIMIT / 4 <= num <= DIV_LIMIT / 4,
    ensures
        q == rounded_div(num as int, den as int),
{
    floor_div(2 * num + den, 2 * den)
}

} // verus!
