//! Integer building blocks for the fixed-point arithmetic used across the
//! crate: truncating division, combined multiply-divide with bounds, the
//! Euclidean remainder, and the integer square root.

use vstd::arithmetic::div_mod::{
    lemma_div_is_ordered, lemma_div_multiples_vanish, lemma_div_pos_is_pos,
    lemma_fundamental_div_mod, lemma_fundamental_div_mod_converse,
};
use vstd::prelude::*;

verus! {

/// Division that truncates toward zero (the semantics of `/` on the
/// machine's signed integers), defined for positive divisors.
pub open spec fn tdiv(a: int, d: int) -> int {
    if a >= 0 {
        a / d
    } else {
        -((-a) / d)
    }
}

/// A product followed by a truncating division, the basic step of
/// fixed-point multiplication.
pub open spec fn mul_div(a: int, b: int, d: int) -> int {
    tdiv(a * b, d)
}

/// Truncating division never rounds away from zero, so a bound on the
/// dividend gives a bound on the quotient.
pub proof fn lemma_tdiv_bound(a: int, d: int, m: int)
    requires
        1 <= d,
        0 <= m,
        -(m * d) <= a <= m * d,
    ensures
        -m <= tdiv(a, d) <= m,
{
    assert(m * d == d * m) by (nonlinear_arith);
    lemma_div_multiples_vanish(m, d);
    if a >= 0 {
        lemma_div_pos_is_pos(a, d);
        lemma_div_is_ordered(a, m * d, d);
    } else {
        lemma_div_pos_is_pos(-a, d);
        lemma_div_is_ordered(-a, m * d, d);
    }
}

/// For a nonnegative dividend, bracketing between multiples of the
/// divisor brackets the quotient.
pub proof fn lemma_tdiv_range(a: int, d: int, lo: int, hi: int)
    requires
        1 <= d,
        0 <= lo,
        lo * d <= a <= hi * d,
    ensures
        lo <= tdiv(a, d) <= hi,
{
    assert(0 <= lo * d && lo * d == d * lo && hi * d == d * hi) by (nonlinear_arith)
        requires
            0 <= lo,
            1 <= d,
    ;
    lemma_div_is_ordered(lo * d, a, d);
    lemma_div_is_ordered(a, hi * d, d);
    lemma_div_multiples_vanish(lo, d);
    lemma_div_multiples_vanish(hi, d);
}

/// Dividing an exact multiple returns the multiplier: `(a * d) / d == a`.
pub proof fn lemma_tdiv_exact(a: int, d: int)
    requires
        1 <= d,
    ensures
        tdiv(a * d, d) == a,
{
    if a >= 0 {
        assert(a * d >= 0 && a * d == d * a) by (nonlinear_arith)
            requires
                0 <= a,
                1 <= d,
        ;
        lemma_div_multiples_vanish(a, d);
    } else {
        assert(a * d < 0 && -(a * d) == d * (-a)) by (nonlinear_arith)
            requires
                a < 0,
                1 <= d,
        ;
        lemma_div_multiples_vanish(-a, d);
    }
}

/// Truncating division by a positive divisor, on machine integers.
pub fn div_trunc(a: i128, d: i128) -> (r: i128)
    requires
        1 <= d,
        i128::MIN < a,
    ensures
        r == tdiv(a as int, d as int),
{
    if a >= 0 {
        let q: u128 = (a as u128) / (d as u128);
        q as i128
    } else {
        let n: i128 = -a;
        let q: u128 = (n as u128) / (d as u128);
        proof {
            lemma_div_pos_is_pos(n as int, d as int);
            vstd::arithmetic::div_mod::lemma_div_nonincreasing(n as int, d as int);
        }
        -(q as i128)
    }
}

/// Multiplies two bounded values and divides the product by a positive
/// divisor, truncating toward zero. The ghost arguments carry the bounds
/// that make the product and the quotient representable.
pub fn muldiv(
    a: i128,
    b: i128,
    d: i128,
    Ghost(ba): Ghost<int>,
    Ghost(bb): Ghost<int>,
    Ghost(bq): Ghost<int>,
) -> (r: i128)
    requires
        1 <= d,
        0 <= ba,
        0 <= bb,
        0 <= bq,
        -ba <= a <= ba,
        -bb <= b <= bb,
        ba * bb <= bq * d,
        bq < 0x8000_0000_0000_0000_0000_0000_0000_0000,
        ba * bb < 0x8000_0000_0000_0000_0000_0000_0000_0000,
    ensures
        r == mul_div(a as int, b as int, d as int),
        -bq <= r <= bq,
        -(ba * bb) <= a * b <= ba * bb,
        0 <= a && 0 <= b ==> 0 <= r,
{
    proof {
        assert(-(ba * bb) <= a * b <= ba * bb) by (nonlinear_arith)
            requires
                -ba <= a <= ba,
                -bb <= b <= bb,
                0 <= ba,
                0 <= bb,
        ;
        if 0 <= a && 0 <= b {
            assert(0 <= a * b) by (nonlinear_arith)
                requires
                    0 <= a,
                    0 <= b,
            ;
        }
    }
    let p: i128 = a * b;
    let r: i128 = div_trunc(p, d);
    proof {
        lemma_tdiv_bound(p as int, d as int, bq);
        if 0 <= p {
            lemma_div_pos_is_pos(p as int, d as int);
        }
    }
    r
}

/// The Euclidean remainder of `a` modulo a positive `m`, always in `[0, m)`.
pub fn euclid_rem_i64(a: i64, m: i64) -> (r: i64)
    requires
        1 <= m,
    ensures
        r == a as int % m as int,
        0 <= r < m,
{
    if a >= 0 {
        let r0: u64 = (a as u64) % (m as u64);
        r0 as i64
    } else {
        let n: i128 = -(a as i128);
        let r0: u128 = (n as u128) % (m as u128);
        let ghost q: int = n as int / m as int;
        if r0 == 0 {
            proof {
                assert(n == m * q) by {
                    lemma_fundamental_div_mod(n as int, m as int);
                }
                assert(a == (-q) * (m as int) + 0) by (nonlinear_arith)
                    requires
                        n == m * q,
                        a == -n,
                ;
                lemma_fundamental_div_mod_converse(a as int, m as int, -q, 0);
            }
            0
        } else {
            proof {
                assert(n == m * q + r0) by {
                    lemma_fundamental_div_mod(n as int, m as int);
                }
                assert(a == (-q - 1) * (m as int) + (m - r0)) by (nonlinear_arith)
                    requires
                        n == m * q + r0,
                        a == -n,
                ;
                lemma_fundamental_div_mod_converse(a as int, m as int, -q - 1, m - r0 as int);
            }
            m - (r0 as i64)
        }
    }
}

/// The integer square root, as a recurrence: it grows by one exactly when
/// the next perfect square is reached.
pub open spec fn sqrt_floor(n: int) -> int
    decreases n,
{
    if n <= 0 {
        0
    } else {
        let p: int = sqrt_floor(n - 1);
        if (p + 1) * (p + 1) <= n {
            p + 1
        } else {
            p
        }
    }
}

/// `sqrt_floor(n)` is the unique nonnegative root with `r * r <= n < (r + 1) * (r + 1)`.
pub proof fn lemma_sqrt_floor_bounds(n: int)
    requires
        0 <= n,
    ensures
        0 <= sqrt_floor(n),
        sqrt_floor(n) * sqrt_floor(n) <= n,
        n < (sqrt_floor(n) + 1) * (sqrt_floor(n) + 1),
    decreases n,
{
    if n == 0 {
    } else {
        lemma_sqrt_floor_bounds(n - 1);
        let p: int = sqrt_floor(n - 1);
        if (p + 1) * (p + 1) <= n {
            assert(n <= (p + 1) * (p + 1)) by (nonlinear_arith)
                requires
                    n - 1 < (p + 1) * (p + 1),
            ;
            assert((p + 2) * (p + 2) > (p + 1) * (p + 1)) by (nonlinear_arith)
                requires
                    0 <= p,
            ;
        }
    }
}

/// Any value that satisfies the square-root bracket is `sqrt_floor`.
pub proof fn lemma_sqrt_floor_unique(n: int, r: int)
    requires
        0 <= n,
        0 <= r,
        r * r <= n,
        n < (r + 1) * (r + 1),
    ensures
        r == sqrt_floor(n),
{
    lemma_sqrt_floor_bounds(n);
    let s: int = sqrt_floor(n);
    assert(r == s) by (nonlinear_arith)
        requires
            0 <= r,
            0 <= s,
            r * r <= n,
            n < (r + 1) * (r + 1),
            s * s <= n,
            n < (s + 1) * (s + 1),
    ;
}

/// Integer square root by bisection.
pub fn isqrt_u128(n: u128) -> (r: u128)
    ensures
        r as int == sqrt_floor(n as int),
        r * r <= n,
        n < (r + 1) * (r + 1),
{
    if n == 0 {
        proof {
            lemma_sqrt_floor_unique(0, 0);
        }
        return 0;
    }
    let mut lo: u128 = 0;
    let mut hi: u128 = 0x1_0000_0000_0000_0000;
    while hi - lo > 1
        invariant
            lo < hi <= 0x1_0000_0000_0000_0000,
            lo * lo <= n,
            n < hi * hi,
        decreases hi - lo,
    {
        let mid: u128 = lo + (hi - lo) / 2;
        proof {
            assert(mid * mid < 0x1_0000_0000_0000_0000_0000_0000_0000_0000) by (nonlinear_arith)
                requires
                    mid < 0x1_0000_0000_0000_0000,
            ;
        }
        if mid * mid <= n {
            lo = mid;
        } else {
            hi = mid;
        }
    }
    proof {
        lemma_sqrt_floor_unique(n as int, lo as int);
    }
    lo
}

} // verus!
