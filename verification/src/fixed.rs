//! Saturating fixed-point scalars.
//!
//! A scalar is an `i64` holding its value scaled by `FP_ONE` (2^16).
//! Results of the arithmetic operations are saturated to
//! `[-FP_LIMIT, FP_LIMIT]`, so every operation is total and every stored
//! scalar stays far away from the `i64` boundaries. Multiplication and
//! division round toward zero; the lattice helpers `floor_fp` / `fract_fp`
//! round toward negative infinity, as a noise lattice needs.

use vstd::prelude::*;

verus! {

/// The fixed-point unit: the representation of the real number one.
pub const FP_ONE: i64 = 65536;

/// Saturation bound for every scalar: 2^40 in real units.
pub const FP_LIMIT: i64 = 0x100_0000_0000_0000;

pub open spec fn fp_abs(a: int) -> int {
    if a >= 0 { a } else { -a }
}

/// Quotient rounded toward zero (the rounding of the executable ops).
pub open spec fn tdiv(a: int, b: int) -> int {
    let q = fp_abs(a) / fp_abs(b);
    if (a >= 0) == (b >= 0) { q } else { -q }
}

/// Saturate to the scalar range.
pub open spec fn clip(a: int) -> int {
    if a > FP_LIMIT as int {
        FP_LIMIT as int
    } else if a < -(FP_LIMIT as int) {
        -(FP_LIMIT as int)
    } else {
        a
    }
}

/// The scalar range every operation lands in.
pub open spec fn in_fp(a: int) -> bool {
    -(FP_LIMIT as int) <= a <= FP_LIMIT as int
}

pub open spec fn fp_add(a: int, b: int) -> int {
    clip(a + b)
}

pub open spec fn fp_sub(a: int, b: int) -> int {
    clip(a - b)
}

pub open spec fn fp_mul(a: int, b: int) -> int {
    clip(tdiv(a * b, FP_ONE as int))
}

pub open spec fn fp_div(a: int, b: int) -> int {
    if b == 0 {
        0
    } else {
        clip(tdiv(a * FP_ONE, b))
    }
}

/// The integer square root: the greatest `r` with `r * r <= a`.
/// Says that `r` is the integer square root of `a`.
pub open spec fn is_isqrt(a: int, r: int) -> bool {
    r >= 0 && r * r <= a && (r + 1) * (r + 1) > a
}

/// The integer square root: the greatest `r` with `r * r <= a`.
pub open spec fn isqrt(a: int) -> int {
    choose|r: int| is_isqrt(a, r)
}

/// Fixed-point square root: `isqrt` of the value rescaled so the result
/// is again a scalar in units of `FP_ONE`.
pub open spec fn fp_sqrt(a: int) -> int {
    isqrt(a * FP_ONE)
}

proof fn lemma_isqrt_unique(a: int, r: int, q: int)
    by (nonlinear_arith)
    requires
        is_isqrt(a, r),
        is_isqrt(a, q),
    ensures
        q == r,
{
}

/// Every nonnegative integer has an integer square root, so `isqrt` of it
/// satisfies the root property.
pub proof fn lemma_isqrt_exists(x: int)
    requires
        0 <= x,
    ensures
        is_isqrt(x, isqrt(x)),
    decreases x,
{
    if x == 0 {
        assert(is_isqrt(0, 0));
        lemma_isqrt_is(0, 0);
    } else {
        lemma_isqrt_exists(x - 1);
        let r = isqrt(x - 1);
        assert(is_isqrt(x - 1, r));
        if (r + 1) * (r + 1) == x {
            assert((r + 2) * (r + 2) > x) by (nonlinear_arith)
                requires
                    (r + 1) * (r + 1) == x,
                    r >= 0,
            ;
            assert(is_isqrt(x, r + 1));
            lemma_isqrt_is(x, r + 1);
        } else {
            assert(is_isqrt(x, r));
            lemma_isqrt_is(x, r);
        }
    }
}

/// Fixes the value of the `choose` inside `isqrt` once a witness is known.
pub proof fn lemma_isqrt_is(a: int, r: int)
    requires
        is_isqrt(a, r),
    ensures
        isqrt(a) == r,
{
    assert(exists|q: int| is_isqrt(a, q)) by {
        assert(is_isqrt(a, r));
    }
    let c = choose|q: int| is_isqrt(a, q);
    lemma_isqrt_unique(a, r, c);
}

fn clip_e(a: i128) -> (r: i64)
    ensures
        r as int == clip(a as int),
        in_fp(r as int),
{
    if a > FP_LIMIT as i128 {
        FP_LIMIT
    } else if a < -(FP_LIMIT as i128) {
        -FP_LIMIT
    } else {
        a as i64
    }
}

fn wide_mul(a: i64, b: i64) -> (r: i128)
    ensures
        r as int == a as int * b as int,
{
    proof {
        assert(i128::MIN <= a as int * b as int <= i128::MAX) by (nonlinear_arith);
    }
    (a as i128) * (b as i128)
}

fn tdiv_e(a: i128, b: i128) -> (q: i128)
    requires
        b != 0,
        a != i128::MIN,
        b != i128::MIN,
    ensures
        q as int == tdiv(a as int, b as int),
        fp_abs(q as int) <= fp_abs(a as int),
{
    let am: u128 = if a < 0 { (-a) as u128 } else { a as u128 };
    let bm: u128 = if b < 0 { (-b) as u128 } else { b as u128 };
    let qm: u128 = am / bm;
    proof {
        assert(am as int == fp_abs(a as int));
        assert(bm as int == fp_abs(b as int));
        assert(qm as int <= am as int) by (nonlinear_arith)
            requires
                bm >= 1,
                qm as int == am as int / bm as int,
        ;
    }
    if (a < 0) != (b < 0) {
        -(qm as i128)
    } else {
        qm as i128
    }
}

/// Saturating fixed-point addition.
pub fn add_fp(a: i64, b: i64) -> (r: i64)
    ensures
        r as int == fp_add(a as int, b as int),
        in_fp(r as int),
{
    clip_e(a as i128 + b as i128)
}

/// Saturating fixed-point subtraction.
pub fn sub_fp(a: i64, b: i64) -> (r: i64)
    ensures
        r as int == fp_sub(a as int, b as int),
        in_fp(r as int),
{
    clip_e(a as i128 - b as i128)
}

/// Saturating fixed-point multiplication, rounding toward zero.
pub fn mul_fp(a: i64, b: i64) -> (r: i64)
    ensures
        r as int == fp_mul(a as int, b as int),
        in_fp(r as int),
{
    let p = wide_mul(a, b);
    proof {
        assert(i128::MIN < a as int * b as int) by (nonlinear_arith);
    }
    let q = tdiv_e(p, FP_ONE as i128);
    clip_e(q)
}

/// Saturating fixed-point division, rounding toward zero.
pub fn div_fp(a: i64, b: i64) -> (r: i64)
    requires
        b != 0,
    ensures
        r as int == fp_div(a as int, b as int),
        in_fp(r as int),
{
    let p = wide_mul(a, FP_ONE);
    let q = tdiv_e(p, b as i128);
    clip_e(q)
}

fn isqrt_u128(x: u128) -> (r: u128)
    ensures
        r as int * r as int <= x as int,
        (r as int + 1) * (r as int + 1) > x as int,
        r <= 0xFFFF_FFFF_FFFF_FFFF,
{
    let mut lo: u128 = 0;
    let mut hi: u128 = 0x1_0000_0000_0000_0000;
    proof {
        assert(hi as int * hi as int > x as int) by (nonlinear_arith)
            requires
                hi == 0x1_0000_0000_0000_0000,
                x <= u128::MAX,
        ;
    }
    while lo + 1 < hi
        invariant
            lo < hi,
            hi <= 0x1_0000_0000_0000_0000,
            lo as int * lo as int <= x as int,
            hi as int * hi as int > x as int,
        decreases hi - lo,
    {
        let mid: u128 = lo + (hi - lo) / 2;
        proof {
            assert(mid as int * mid as int <= u128::MAX) by (nonlinear_arith)
                requires
                    mid < 0x1_0000_0000_0000_0000,
            ;
        }
        if mid * mid <= x {
            lo = mid;
        } else {
            hi = mid;
        }
    }
    lo
}

/// Fixed-point square root of a nonnegative scalar.
pub fn sqrt_fp(a: i64) -> (r: i64)
    requires
        a >= 0,
    ensures
        r as int == fp_sqrt(a as int),
        r >= 0,
        in_fp(r as int),
{
    proof {
        assert(a as int * FP_ONE as int <= i64::MAX as int * 65536) by (nonlinear_arith);
    }
    let x: u128 = (a as u128) * (FP_ONE as u128);
    let s = isqrt_u128(x);
    proof {
        lemma_isqrt_is(x as int, s as int);
        assert(x as int == a as int * FP_ONE as int);
        assert(a as int * FP_ONE as int <= i64::MAX as int * 65536) by (nonlinear_arith);
        assert(x < 0x8000_0000_0000_0000_0000);
        lemma_root_small(s as int, x as int);
    }
    s as i64
}

proof fn lemma_root_small(s: int, x: int)
    by (nonlinear_arith)
    requires
        s >= 0,
        s * s <= x,
        x < 0x8000_0000_0000_0000_0000,
    ensures
        s < 0x100_0000_0000,
{
}

/// Quotients rounded toward zero are ordered as their numerators.
pub proof fn lemma_tdiv_mono(x: int, y: int, d: int)
    requires
        x <= y,
        1 <= d,
    ensures
        tdiv(x, d) <= tdiv(y, d),
{
    if x >= 0 {
        vstd::arithmetic::div_mod::lemma_div_is_ordered(x, y, d);
    } else if y < 0 {
        vstd::arithmetic::div_mod::lemma_div_is_ordered(-y, -x, d);
    } else {
        vstd::arithmetic::div_mod::lemma_div_pos_is_pos(-x, d);
        vstd::arithmetic::div_mod::lemma_div_pos_is_pos(y, d);
    }
}

/// Floor division by a positive divisor.
pub fn fdiv_e(a: i64, d: i64) -> (q: i64)
    requires
        0 < d,
        in_fp(a as int),
    ensures
        q as int == a as int / d as int,
        fp_abs(q as int) <= fp_abs(a as int),
{
    if a >= 0 {
        let r = (a as u64) / (d as u64);
        proof {
            vstd::arithmetic::div_mod::lemma_div_pos_is_pos(a as int, d as int);
            vstd::arithmetic::div_mod::lemma_div_nonincreasing(a as int, d as int);
        }
        r as i64
    } else {
        let m: u64 = (-(a as i128)) as u64;
        let c: u64 = (m + ((d as u64) - 1)) / (d as u64);
        proof {
            lemma_floor_neg_gen(a as int, m as int, c as int, d as int);
        }
        -(c as i64)
    }
}

proof fn lemma_floor_neg_gen(a: int, m: int, c: int, d: int)
    requires
        a < 0,
        0 < d,
        m == -a,
        c == (m + d - 1) / d,
    ensures
        -c == a / d,
        0 <= c <= m,
{
    vstd::arithmetic::div_mod::lemma_fundamental_div_mod(m + d - 1, d);
    vstd::arithmetic::div_mod::lemma_fundamental_div_mod(a, d);
    assert(d * (c + 1) == d * c + d) by (nonlinear_arith);
    assert(d * c <= m + d - 1 < d * (c + 1));
    assert(d * (a / d) <= a < d * (a / d) + d);
    assert(-c == a / d && 0 <= c <= m) by (nonlinear_arith)
        requires
            d > 0,
            m > 0,
            d * c <= m + d - 1 < d * (c + 1),
            d * (a / d) <= a < d * (a / d) + d,
            m == -a,
    ;
}

/// Euclidean remainder by a small positive divisor: always in `[0, d)`.
pub fn emod_e(a: i64, d: i64) -> (r: i64)
    requires
        0 < d <= FP_LIMIT,
        in_fp(a as int),
    ensures
        r as int == a as int % d as int,
        0 <= r < d,
{
    let q = fdiv_e(a, d);
    proof {
        vstd::arithmetic::div_mod::lemma_fundamental_div_mod(a as int, d as int);
        vstd::arithmetic::mul::lemma_mul_is_commutative(q as int, d as int);
        assert(q as int * d as int == a as int - a as int % d as int);
    }
    a - q * d
}

/// The lattice coordinate of a scalar: floor of its real value.
pub fn floor_fp(a: i64) -> (q: i64)
    ensures
        q as int == a as int / FP_ONE as int,
{
    if a >= 0 {
        let r = (a as u64) / (FP_ONE as u64);
        proof {
            assert(r as int == a as int / FP_ONE as int);
        }
        r as i64
    } else {
        let m: u64 = (-(a as i128)) as u64;
        let c: u64 = (m + (FP_ONE as u64 - 1)) / (FP_ONE as u64);
        proof {
            lemma_floor_neg(a as int, m as int, c as int);
        }
        -(c as i64)
    }
}

proof fn lemma_floor_neg(a: int, m: int, c: int)
    requires
        a < 0,
        m == -a,
        c == (m + FP_ONE - 1) / (FP_ONE as int),
    ensures
        -c == a / (FP_ONE as int),
{
    let s = FP_ONE as int;
    vstd::arithmetic::div_mod::lemma_fundamental_div_mod(m + s - 1, s);
    vstd::arithmetic::div_mod::lemma_fundamental_div_mod(a, s);
    assert(s * c <= m + s - 1 < s * (c + 1));
    assert(s * (a / s) <= a < s * (a / s) + s);
    assert(-c == a / s) by (nonlinear_arith)
        requires
            s > 0,
            s * c <= m + s - 1 < s * (c + 1),
            s * (a / s) <= a < s * (a / s) + s,
            m == -a,
    ;
}

/// The fractional offset of a scalar above its lattice floor, in `[0, FP_ONE)`.
pub fn fract_fp(a: i64) -> (r: i64)
    requires
        in_fp(a as int),
    ensures
        r as int == a as int % FP_ONE as int,
        0 <= r < FP_ONE,
{
    let q = floor_fp(a);
    proof {
        vstd::arithmetic::div_mod::lemma_fundamental_div_mod(a as int, FP_ONE as int);
        assert(fp_abs(q as int) <= FP_LIMIT as int);
    }
    a - q * FP_ONE
}

} // verus!
