//! Fixed-point scalar arithmetic.
//!
//! A scalar is an `i64` holding a real value multiplied by `SCALE`.
//! Multiplication and division round toward negative infinity; the spec
//! functions here state each operation exactly at the mathematical level,
//! and the executable functions are proved to compute them.

use vstd::prelude::*;
use vstd::arithmetic::div_mod::{
    lemma_fundamental_div_mod, lemma_fundamental_div_mod_converse_div, lemma_div_is_ordered,
};

verus! {

/// Number of raw integer steps per world unit.
pub const SCALE: i64 = 65536;

/// Floor of the real quotient `a / b`, for `b != 0`. Euclidean division
/// is the floor exactly when the divisor is positive, so a negative
/// divisor is normalized away.
pub open spec fn floor_div(a: int, b: int) -> int {
    if b > 0 {
        a / b
    } else {
        (-a) / (-b)
    }
}

/// Product of two fixed-point scalars, rounded toward negative infinity.
pub open spec fn fmul_s(a: int, b: int) -> int {
    floor_div(a * b, SCALE as int)
}

/// Quotient of two fixed-point scalars, rounded toward negative infinity.
pub open spec fn fdiv_s(a: int, b: int) -> int {
    floor_div(a * (SCALE as int), b)
}

/// Quotient of two fixed-point scalars, rounded toward positive
/// infinity.
pub open spec fn fdiv_ceil_s(a: int, b: int) -> int {
    -fdiv_s(-a, b)
}

/// The absolute value.
pub open spec fn abs_i(a: int) -> int {
    if a < 0 {
        -a
    } else {
        a
    }
}

/// `x` forced into the closed range `[lo, hi]`.
pub open spec fn clamp_s(x: int, lo: int, hi: int) -> int {
    if x < lo {
        lo
    } else if x > hi {
        hi
    } else {
        x
    }
}

/// The integer square root of a nonnegative `n`: the unique `r` with
/// `r * r <= n < (r + 1) * (r + 1)`.
pub open spec fn sqrt_floor(n: int) -> int {
    choose|r: int| 0 <= r && #[trigger] (r * r) <= n && n < (r + 1) * (r + 1)
}

/// Squares are monotone over the nonnegative integers.
pub proof fn lemma_square_ordered(a: int, b: int)
    requires
        0 <= a <= b,
    ensures
        a * a <= b * b,
{
    assert(a * a <= b * b) by (nonlinear_arith)
        requires
            0 <= a <= b,
    ;
}

/// Any witness of the square-root characterization is the square root.
pub proof fn lemma_sqrt_floor_unique(n: int, r: int)
    requires
        0 <= r,
        r * r <= n,
        n < (r + 1) * (r + 1),
    ensures
        sqrt_floor(n) == r,
{
    assert(0 <= r && (r * r) <= n && n < (r + 1) * (r + 1));
    let c = sqrt_floor(n);
    assert(0 <= c && (c * c) <= n && n < (c + 1) * (c + 1));
    if c < r {
        lemma_square_ordered(c + 1, r);
        assert(false);
    }
    if r < c {
        lemma_square_ordered(r + 1, c);
        assert(false);
    }
}

/// Floor division with the same positive divisor preserves order.
pub proof fn lemma_floor_div_ordered(a: int, b: int, d: int)
    requires
        a <= b,
        d != 0,
    ensures
        d > 0 ==> floor_div(a, d) <= floor_div(b, d),
        d < 0 ==> floor_div(b, d) <= floor_div(a, d),
{
    if d > 0 {
        lemma_div_is_ordered(a, b, d);
    } else {
        lemma_div_is_ordered(-b, -a, -d);
    }
}

/// Negating the dividend can lower the floor quotient by at most one
/// step past the negated quotient.
pub proof fn lemma_floor_div_neg(x: int, d: int)
    requires
        d > 0,
    ensures
        floor_div(-x, d) >= -floor_div(x, d) - 1,
{
    lemma_fundamental_div_mod(x, d);
    let q = x / d;
    let r = x % d;
    if r == 0 {
        assert(-x == (-q) * d + 0) by (nonlinear_arith)
            requires
                x == d * q + r,
                r == 0,
        ;
        lemma_fundamental_div_mod_converse_div(-x, d, -q, 0);
    } else {
        assert(-x == (-q - 1) * d + (d - r)) by (nonlinear_arith)
            requires
                x == d * q + r,
        ;
        lemma_fundamental_div_mod_converse_div(-x, d, -q - 1, d - r);
    }
}

/// A magnitude bound on the dividend gives a magnitude bound on the
/// floor quotient.
pub proof fn lemma_floor_div_abs_bound(a: int, d: int, m: int)
    requires
        d >= 1,
        0 <= m,
        -m <= a <= m,
    ensures
        -floor_div(m, d) - 1 <= floor_div(a, d) <= floor_div(m, d),
        floor_div(m, d) <= m,
{
    lemma_div_is_ordered(a, m, d);
    lemma_div_is_ordered(-m, a, d);
    lemma_floor_div_neg(m, d);
    assert(floor_div(m, d) <= m) by {
        lemma_fundamental_div_mod(m, d);
        assert(m / d <= m) by (nonlinear_arith)
            requires
                d >= 1,
                m >= 0,
                m == d * (m / d) + (m % d),
                m % d >= 0,
        ;
    };
}

/// A magnitude bound on both factors gives a magnitude bound on the
/// fixed-point product.
pub proof fn lemma_fmul_s_abs_bound(a: int, b: int, m: int)
    requires
        0 <= m,
        -m <= a <= m,
        -m <= b <= m,
    ensures
        -floor_div(m * m, SCALE as int) - 1 <= fmul_s(a, b) <= floor_div(m * m, SCALE as int),
        floor_div(m * m, SCALE as int) <= m * m,
{
    assert(-(m * m) <= a * b <= m * m) by (nonlinear_arith)
        requires
            0 <= m,
            -m <= a <= m,
            -m <= b <= m,
    ;
    assert(m * m >= 0) by (nonlinear_arith)
        requires
            0 <= m,
    ;
    lemma_floor_div_abs_bound(a * b, SCALE as int, m * m);
}

/// A magnitude bound on the dividend gives a magnitude bound on the
/// fixed-point quotient.
pub proof fn lemma_fdiv_s_abs_bound(a: int, b: int, m: int)
    requires
        0 <= m,
        -m <= a <= m,
        b != 0,
    ensures
        -(m * (SCALE as int)) - 1 <= fdiv_s(a, b) <= m * (SCALE as int),
{
    let s = SCALE as int;
    assert(-(m * s) <= a * s <= m * s) by (nonlinear_arith)
        requires
            0 <= m,
            -m <= a <= m,
            s > 0,
    ;
    if b > 0 {
        lemma_floor_div_abs_bound(a * s, b, m * s);
    } else {
        lemma_floor_div_abs_bound(-(a * s), -b, m * s);
    }
}

/// Separate magnitude bounds on the factors give a magnitude bound on
/// the fixed-point product.
pub proof fn lemma_fmul_s_mixed_bound(a: int, b: int, ma: int, mb: int)
    requires
        0 <= ma,
        0 <= mb,
        -ma <= a <= ma,
        -mb <= b <= mb,
    ensures
        -floor_div(ma * mb, SCALE as int) - 1 <= fmul_s(a, b) <= floor_div(ma * mb, SCALE as int),
        floor_div(ma * mb, SCALE as int) <= ma * mb,
{
    assert(-(ma * mb) <= a * b <= ma * mb) by (nonlinear_arith)
        requires
            0 <= ma,
            0 <= mb,
            -ma <= a <= ma,
            -mb <= b <= mb,
    ;
    assert(ma * mb >= 0) by (nonlinear_arith)
        requires
            0 <= ma,
            0 <= mb,
    ;
    lemma_floor_div_abs_bound(a * b, SCALE as int, ma * mb);
}

/// A proper fraction stays within one after fixed-point division: with
/// the numerator strictly smaller in magnitude than the positive
/// denominator, the quotient lies in `[-SCALE, SCALE]`.
pub proof fn lemma_fdiv_s_ratio_bound(a: int, b: int)
    requires
        b > 0,
        -b < a < b,
    ensures
        -(SCALE as int) <= fdiv_s(a, b) <= SCALE as int,
{
    let s = SCALE as int;
    assert(a * s <= b * s - 1) by (nonlinear_arith)
        requires
            a <= b - 1,
            s > 0,
    ;
    assert(-(b * s) <= a * s) by (nonlinear_arith)
        requires
            -b <= a,
            s > 0,
    ;
    assert(b * s - 1 == b * (s - 1) + (b - 1)) by (nonlinear_arith);
    lemma_fundamental_div_mod_converse_div(b * s - 1, b, s - 1, b - 1);
    assert(-(b * s) == b * (-s) + 0) by (nonlinear_arith);
    lemma_fundamental_div_mod_converse_div(-(b * s), b, -s, 0);
    lemma_div_is_ordered(a * s, b * s - 1, b);
    lemma_div_is_ordered(-(b * s), a * s, b);
}

/// A fixed-point square of a value within one stays within one.
pub proof fn lemma_fmul_s_square_within_one(q: int)
    requires
        -(SCALE as int) <= q <= SCALE as int,
    ensures
        0 <= fmul_s(q, q) <= SCALE as int,
{
    let s = SCALE as int;
    assert(0 <= q * q <= s * s) by (nonlinear_arith)
        requires
            -s <= q <= s,
    ;
    vstd::arithmetic::div_mod::lemma_div_pos_is_pos(q * q, s);
    lemma_div_is_ordered(q * q, s * s, s);
    assert(s * s == s * s + 0);
    lemma_fundamental_div_mod_converse_div(s * s, s, s, 0);
}

/// A fixed-point square is never negative.
pub proof fn lemma_fmul_s_square_nonneg(a: int)
    ensures
        fmul_s(a, a) >= 0,
{
    assert(a * a >= 0) by (nonlinear_arith);
    vstd::arithmetic::div_mod::lemma_div_pos_is_pos(a * a, SCALE as int);
}

/// Euclidean (floor) division by a positive divisor, computed on
/// unsigned magnitudes.
pub fn div_floor_i128(n: i128, d: i128) -> (q: i128)
    requires
        d > 0,
        i128::MIN < n,
    ensures
        q == floor_div(n as int, d as int),
{
    if n >= 0 {
        let q0: u128 = (n as u128) / (d as u128);
        proof {
            assert(q0 == n as int / d as int);
            assert(n as int / d as int <= n as int) by {
                lemma_fundamental_div_mod(n as int, d as int);
                assert((n as int / d as int) * d as int <= n as int) by (nonlinear_arith)
                    requires
                        d as int > 0,
                        n as int == d as int * (n as int / d as int) + (n as int % d as int),
                        n as int % d as int >= 0,
                ;
                if n as int / d as int > n as int {
                    assert((n as int / d as int) * d as int >= n as int / d as int) by (nonlinear_arith)
                        requires
                            d as int >= 1,
                            n as int / d as int >= 0,
                    ;
                }
            };
        }
        q0 as i128
    } else {
        let na: u128 = (-n) as u128;
        let du: u128 = d as u128;
        let q0: u128 = na / du;
        let r0: u128 = na % du;
        proof {
            lemma_fundamental_div_mod(na as int, du as int);
            assert(q0 <= na) by {
                assert(na as int / du as int <= na as int) by (nonlinear_arith)
                    requires
                        du as int >= 1,
                        na as int >= 0,
                        na as int == du as int * (na as int / du as int) + (na as int % du as int),
                        0 <= na as int % du as int,
                ;
            };
        }
        if r0 == 0 {
            proof {
                assert(n as int == (-(q0 as int)) * d as int + 0) by (nonlinear_arith)
                    requires
                        na as int == du as int * (q0 as int),
                        n as int == -(na as int),
                        d as int == du as int,
                ;
                lemma_fundamental_div_mod_converse_div(n as int, d as int, -(q0 as int), 0);
            }
            -(q0 as i128)
        } else {
            proof {
                assert(n as int == (-(q0 as int) - 1) * d as int + (d as int - r0 as int))
                    by (nonlinear_arith)
                    requires
                        na as int == du as int * (q0 as int) + (r0 as int),
                        n as int == -(na as int),
                        d as int == du as int,
                ;
                lemma_fundamental_div_mod_converse_div(
                    n as int,
                    d as int,
                    -(q0 as int) - 1,
                    d as int - r0 as int,
                );
            }
            -(q0 as i128) - 1
        }
    }
}

/// Floor division by an arbitrary nonzero divisor.
pub fn div_floor_any_i128(n: i128, d: i128) -> (q: i128)
    requires
        d != 0,
        i128::MIN < n,
        i128::MIN < d,
        i128::MIN <= floor_div(n as int, d as int) <= i128::MAX,
    ensures
        q == floor_div(n as int, d as int),
{
    if d > 0 {
        div_floor_i128(n, d)
    } else {
        div_floor_i128(-n, -d)
    }
}

/// The product of two `i64` values stays well inside `i128`.
proof fn lemma_i64_product_in_i128(a: int, b: int)
    requires
        i64::MIN <= a <= i64::MAX,
        i64::MIN <= b <= i64::MAX,
    ensures
        i128::MIN < a * b <= i128::MAX,
{
    assert(i128::MIN < a * b <= i128::MAX) by (nonlinear_arith)
        requires
            -0x8000_0000_0000_0000 <= a <= 0x7FFF_FFFF_FFFF_FFFF,
            -0x8000_0000_0000_0000 <= b <= 0x7FFF_FFFF_FFFF_FFFF,
    ;
}

/// Fixed-point product of two scalars.
pub fn fmul64(a: i64, b: i64) -> (r: i64)
    requires
        i64::MIN <= fmul_s(a as int, b as int) <= i64::MAX,
    ensures
        r == fmul_s(a as int, b as int),
{
    proof {
        lemma_i64_product_in_i128(a as int, b as int);
    }
    let p: i128 = (a as i128) * (b as i128);
    let q: i128 = div_floor_i128(p, SCALE as i128);
    q as i64
}

/// Fixed-point product forced into the closed range `[lo, hi]`.
pub fn fmul_clamp(a: i64, b: i64, lo: i64, hi: i64) -> (r: i64)
    requires
        lo <= hi,
    ensures
        r == clamp_s(fmul_s(a as int, b as int), lo as int, hi as int),
{
    proof {
        lemma_i64_product_in_i128(a as int, b as int);
    }
    let p: i128 = (a as i128) * (b as i128);
    let q: i128 = div_floor_i128(p, SCALE as i128);
    if q < lo as i128 {
        lo
    } else if q > hi as i128 {
        hi
    } else {
        q as i64
    }
}

/// Fixed-point quotient of two scalars.
pub fn fdiv64(a: i64, b: i64) -> (r: i64)
    requires
        b != 0,
        i64::MIN <= fdiv_s(a as int, b as int) <= i64::MAX,
    ensures
        r == fdiv_s(a as int, b as int),
{
    let n: i128 = (a as i128) * (SCALE as i128);
    let q: i128 = div_floor_any_i128(n, b as i128);
    q as i64
}

/// Fixed-point quotient rounded toward positive infinity.
pub fn fdiv_ceil64(a: i64, b: i64) -> (r: i64)
    requires
        b != 0,
        a != i64::MIN,
        i64::MIN < fdiv_s(-a as int, b as int) <= i64::MAX,
    ensures
        r == fdiv_ceil_s(a as int, b as int),
{
    let q: i64 = fdiv64(-a, b);
    -q
}

/// Sum forced into the closed range `[lo, hi]`.
pub fn add_clamp(a: i64, b: i64, lo: i64, hi: i64) -> (r: i64)
    requires
        lo <= hi,
    ensures
        r == clamp_s(a as int + b as int, lo as int, hi as int),
{
    let s: i128 = (a as i128) + (b as i128);
    if s < lo as i128 {
        lo
    } else if s > hi as i128 {
        hi
    } else {
        s as i64
    }
}

/// The integer square root, by bisection on the answer.
pub fn isqrt_u128(n: u128) -> (r: u128)
    ensures
        r <= 0xFFFF_FFFF_FFFF_FFFFu128,
        (r as int) * (r as int) <= n as int,
        (n as int) < (r as int + 1) * (r as int + 1),
        r as int == sqrt_floor(n as int),
{
    let mut lo: u128 = 0;
    let mut hi: u128 = 0xFFFF_FFFF_FFFF_FFFF;
    proof {
        assert((hi as int + 1) * (hi as int + 1) > n as int) by (nonlinear_arith)
            requires
                hi as int + 1 == 0x1_0000_0000_0000_0000int,
                n as int <= u128::MAX as int,
        ;
    }
    while lo < hi
        invariant
            lo <= hi,
            hi <= 0xFFFF_FFFF_FFFF_FFFF,
            (lo as int) * (lo as int) <= n as int,
            (n as int) < (hi as int + 1) * (hi as int + 1),
        decreases hi - lo,
    {
        let mid: u128 = lo + (hi - lo + 1) / 2;
        proof {
            assert(lo < mid <= hi);
            assert((mid as int) * (mid as int) <= u128::MAX as int) by (nonlinear_arith)
                requires
                    0 <= mid as int <= 0xFFFF_FFFF_FFFF_FFFFu128,
            ;
        }
        let sq: u128 = mid * mid;
        if sq <= n {
            lo = mid;
        } else {
            hi = mid - 1;
        }
    }
    proof {
        lemma_sqrt_floor_unique(n as int, lo as int);
    }
    lo
}

/// The integer square root of a nonnegative `i128`.
pub fn isqrt_i128(n: i128) -> (r: i128)
    requires
        n >= 0,
    ensures
        0 <= r <= 0xFFFF_FFFF_FFFF_FFFF,
        (r as int) * (r as int) <= n as int,
        (n as int) < (r as int + 1) * (r as int + 1),
        r as int == sqrt_floor(n as int),
{
    let r: u128 = isqrt_u128(n as u128);
    proof {
        assert(r as int <= 0xFFFF_FFFF_FFFF_FFFF);
    }
    r as i128
}

} // verus!
