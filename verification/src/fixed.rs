//! 16.16 fixed-point arithmetic: flooring division, cells, integer square root.

use vstd::prelude::*;
use vstd::arithmetic::div_mod::lemma_fundamental_div_mod_converse;

verus! {

/// Number of fractional bits of a fixed-point value.
pub const FRAC_BITS: u32 = 16;

/// The fixed-point value of 1.0: one grid cell.
pub const ONE: i32 = 65536;

/// Flooring quotient of `a` by a positive `b`.
pub fn div_floor(a: i64, b: i64) -> (q: i64)
    requires
        b > 0,
    ensures
        q == a as int / b as int,
        a >= 0 ==> 0 <= q <= a,
        a < 0 ==> a <= q < 0,
{
    if a >= 0 {
        let k: i64 = a / b;
        assert(0 <= k <= a) by (nonlinear_arith)
            requires
                k == a as int / b as int,
                a >= 0,
                b >= 1,
        ;
        k
    } else {
        let m: i64 = -(a + 1);
        let k: i64 = m / b;
        let r: i64 = m % b;
        proof {
            assert(m == k * b + r) by (nonlinear_arith)
                requires
                    k == m as int / b as int,
                    r == m as int % b as int,
                    b > 0,
            ;
            assert(a == (-k - 1) * b + (b - r - 1)) by (nonlinear_arith)
                requires
                    m == k * b + r,
                    m == -(a + 1),
            ;
            lemma_fundamental_div_mod_converse(a as int, b as int, -k - 1, b - r - 1);
            assert(0 <= k <= m) by (nonlinear_arith)
                requires
                    k == m as int / b as int,
                    m >= 0,
                    b >= 1,
            ;
        }
        -k - 1
    }
}

/// The grid cell that holds the fixed-point coordinate `pos`.
pub open spec fn cell_index(pos: int) -> int {
    pos / 65536
}

/// The grid cell that holds `pos`: its integer part, rounded down.
pub fn cell_of(pos: i64) -> (cell: i64)
    ensures
        cell == cell_index(pos as int),
{
    div_floor(pos, ONE as i64)
}

/// `r` is the integer square root of `n`.
pub open spec fn is_isqrt(n: int, r: int) -> bool {
    0 <= r && r * r <= n < (r + 1) * (r + 1)
}

/// The integer square root of `n`: the largest number whose square does not
/// exceed `n`.
pub open spec fn int_sqrt(n: int) -> int {
    choose|r: int| is_isqrt(n, r)
}

/// A number has at most one integer square root.
pub proof fn lemma_isqrt_unique(n: int, r1: int, r2: int)
    requires
        is_isqrt(n, r1),
        is_isqrt(n, r2),
    ensures
        r1 == r2,
{
    if r1 < r2 {
        assert((r1 + 1) * (r1 + 1) <= r2 * r2) by (nonlinear_arith)
            requires
                0 <= r1,
                r1 + 1 <= r2,
        ;
    }
    if r2 < r1 {
        assert((r2 + 1) * (r2 + 1) <= r1 * r1) by (nonlinear_arith)
            requires
                0 <= r2,
                r2 + 1 <= r1,
        ;
    }
}

/// Whatever satisfies `is_isqrt` is the integer square root.
pub proof fn lemma_int_sqrt_is(n: int, r: int)
    requires
        is_isqrt(n, r),
    ensures
        int_sqrt(n) == r,
{
    lemma_isqrt_unique(n, r, int_sqrt(n));
}

/// Integer square root: the largest `r` whose square does not exceed `n`.
pub fn isqrt(n: u128) -> (r: u64)
    ensures
        r == int_sqrt(n as int),
        is_isqrt(n as int, r as int),
{
    let mut lo: u128 = 0;
    let mut hi: u128 = 0x1_0000_0000_0000_0000;
    assert(n < hi * hi) by (nonlinear_arith)
        requires
            hi == 0x1_0000_0000_0000_0000u128,
            n <= 0xffff_ffff_ffff_ffff_ffff_ffff_ffff_ffffu128,
    ;
    while hi - lo > 1
        invariant
            lo < hi <= 0x1_0000_0000_0000_0000u128,
            lo * lo <= n < hi * hi,
        decreases hi - lo,
    {
        let mid: u128 = lo + (hi - lo) / 2;
        assert(mid * mid <= 0xffff_ffff_ffff_ffffu128 * 0xffff_ffff_ffff_ffffu128)
            by (nonlinear_arith)
            requires
                mid <= 0xffff_ffff_ffff_ffffu128,
        ;
        if mid * mid <= n {
            lo = mid;
        } else {
            hi = mid;
        }
    }
    proof {
        lemma_int_sqrt_is(n as int, lo as int);
    }
    lo as u64
}

} // verus!
