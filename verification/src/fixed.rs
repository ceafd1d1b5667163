//! Fixed-point scalar arithmetic.
//!
//! Scalars are signed 48.16 fixed-point numbers: an `i64` holds the real
//! value multiplied by [`FP_ONE`].  Operations that rescale round toward
//! negative infinity (floor), which keeps every result exactly defined.

use vstd::prelude::*;

verus! {

use vstd::arithmetic::div_mod::lemma_fundamental_div_mod;
use vstd::arithmetic::div_mod::lemma_fundamental_div_mod_converse;

/// One unit in 48.16 fixed point: all scalars store the real value
/// multiplied by this constant.
pub const FP_ONE: i64 = 65536;

/// Length of one full animation cycle, in fixed-point ticks
/// (the cycle lasts four time units).
pub const CYCLE_TICKS: i64 = 4 * FP_ONE;

/// Largest magnitude a matrix entry may have.  Keeping entries inside
/// this bound guarantees that a product of two matrices can be computed
/// without overflowing the 128-bit intermediates.
pub const MAT_LIMIT: i64 = 0x3fff_ffff_ffff_ffff;

/// Bound on the operands accepted by [`floor_div_i128`]; comfortably
/// above every intermediate this crate produces.
pub const DIV_RANGE: i128 = 0x4000_0000_0000_0000_0000_0000_0000_0000;

/// `|x| <= bx` and `|y| <= by` bound the product by `bx * by`.
pub proof fn lemma_mul_bound(x: int, y: int, bx: int, by: int)
    by (nonlinear_arith)
    requires
        -bx <= x <= bx,
        -by <= y <= by,
        0 <= bx,
        0 <= by,
    ensures
        -(bx * by) <= x * y <= bx * by,
{
}

/// `v` pinned to the symmetric interval `[-lim, lim]`.
pub open spec fn spec_clamp(v: int, lim: int) -> int {
    if v > lim {
        lim
    } else if v < -lim {
        -lim
    } else {
        v
    }
}

/// Pins `v` to `[-lim, lim]` and narrows it back to 64 bits.
pub fn clamp_i128(v: i128, lim: i64) -> (r: i64)
    requires
        lim >= 0,
    ensures
        r as int == spec_clamp(v as int, lim as int),
{
    if v > lim as i128 {
        lim
    } else if v < -(lim as i128) {
        -lim
    } else {
        v as i64
    }
}

/// `r` is the integer square root of `n`: the largest integer whose
/// square does not exceed `n`.
pub open spec fn is_isqrt(n: int, r: int) -> bool {
    &&& 0 <= r
    &&& r * r <= n
    &&& n < (r + 1) * (r + 1)
}

/// The integer square root of `n` (meaningful for `n >= 0`).
pub open spec fn spec_isqrt(n: int) -> int {
    choose|r: int| is_isqrt(n, r)
}

/// The integer square root is unique.
pub proof fn lemma_isqrt_unique(n: int, r1: int, r2: int)
    by (nonlinear_arith)
    requires
        is_isqrt(n, r1),
        is_isqrt(n, r2),
    ensures
        r1 == r2,
{
}

/// Binary-search integer square root.
pub fn isqrt_u128(n: u128) -> (r: u128)
    ensures
        is_isqrt(n as int, r as int),
        r as int == spec_isqrt(n as int),
{
    let mut lo: u128 = 0;
    let mut hi: u128 = 0x1_0000_0000_0000_0000;
    proof {
        assert((hi as int) * (hi as int) > n as int) by (nonlinear_arith)
            requires
                hi as int == 0x1_0000_0000_0000_0000,
                n as int <= u128::MAX as int,
        ;
    }
    while lo + 1 < hi
        invariant
            lo < hi <= 0x1_0000_0000_0000_0000,
            (lo as int) * (lo as int) <= n as int,
            (hi as int) * (hi as int) > n as int,
        decreases hi - lo,
    {
        let mid: u128 = lo + (hi - lo) / 2;
        proof {
            assert((mid as int) * (mid as int) <= u128::MAX as int) by (nonlinear_arith)
                requires
                    0 <= (mid as int) <= 0xffff_ffff_ffff_ffff,
            ;
        }
        if mid * mid <= n {
            lo = mid;
        } else {
            hi = mid;
        }
    }
    proof {
        assert(is_isqrt(n as int, lo as int));
        assert(exists|r: int| is_isqrt(n as int, r));
        lemma_isqrt_unique(n as int, lo as int, spec_isqrt(n as int));
    }
    lo
}

/// Floor division of `n` by a positive `d`: the quotient rounded toward
/// negative infinity.  This agrees with the mathematical Euclidean
/// quotient `n / d` used throughout the specifications.
pub fn floor_div_i128(n: i128, d: i128) -> (q: i128)
    requires
        0 < d < DIV_RANGE,
        -DIV_RANGE < n < DIV_RANGE,
    ensures
        q == n as int / d as int,
{
    if n >= 0 {
        let un: u128 = n as u128;
        let ud: u128 = d as u128;
        let uq: u128 = un / ud;
        proof {
            lemma_fundamental_div_mod(un as int, ud as int);
            lemma_fundamental_div_mod_converse(
                n as int,
                d as int,
                uq as int,
                (un as int) % (ud as int),
            );
        }
        uq as i128
    } else {
        let m: u128 = (-n) as u128;
        let ud: u128 = d as u128;
        let uq: u128 = m / ud;
        let ur: u128 = m % ud;
        proof {
            lemma_fundamental_div_mod(m as int, ud as int);
        }
        if ur == 0 {
            proof {
                assert(n as int == (-(uq as int)) * (d as int) + 0) by (nonlinear_arith)
                    requires
                        m as int == (uq as int) * (d as int) + (ur as int),
                        ur as int == 0,
                        n as int == -(m as int),
                ;
                lemma_fundamental_div_mod_converse(n as int, d as int, -(uq as int), 0);
            }
            -(uq as i128)
        } else {
            proof {
                assert(n as int == (-(uq as int) - 1) * (d as int) + (d as int - ur as int))
                    by (nonlinear_arith)
                    requires
                        m as int == (uq as int) * (d as int) + (ur as int),
                        n as int == -(m as int),
                ;
                lemma_fundamental_div_mod_converse(
                    n as int,
                    d as int,
                    -(uq as int) - 1,
                    d as int - ur as int,
                );
            }
            -(uq as i128) - 1
        }
    }
}

} // verus!
