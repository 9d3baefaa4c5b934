//! Saturating Q47.16 fixed-point scalars.
//!
//! A raw `i64` value `v` stands for the real number `v / SCALE`. Results
//! that would leave `[-SAT_MAX, SAT_MAX]` saturate, so every operation is
//! total and each executable function is pinned to an exact spec mirror.
//! Products and quotients round toward zero, as `(a * b) / SCALE` does on
//! machine integers.

use vstd::prelude::*;

verus! {

/// Raw value of one: the fixed-point scaling factor 2^16.
pub const SCALE: i64 = 65536;

/// Largest representable raw value.
pub const SAT_MAX: i64 = 0x7fff_ffff_ffff_ffff;

/// Smallest representable raw value; symmetric to `SAT_MAX`, so negation
/// never overflows.
pub const SAT_MIN: i64 = -0x7fff_ffff_ffff_ffff;

/// Absolute value on mathematical integers.
pub open spec fn iabs(a: int) -> int {
    if a < 0 {
        -a
    } else {
        a
    }
}

/// Division truncating toward zero (the C/Rust convention), total in `b`.
pub open spec fn tdiv(a: int, b: int) -> int {
    if b == 0 {
        0
    } else if (a < 0) == (b < 0) {
        iabs(a) / iabs(b)
    } else {
        -(iabs(a) / iabs(b))
    }
}

/// Clamp into the representable raw range.
pub open spec fn sat(x: int) -> int {
    if x > SAT_MAX as int {
        SAT_MAX as int
    } else if x < SAT_MIN as int {
        SAT_MIN as int
    } else {
        x
    }
}

/// Fixed-point sum.
pub open spec fn add_fp(a: int, b: int) -> int {
    sat(a + b)
}

/// Fixed-point difference.
pub open spec fn sub_fp(a: int, b: int) -> int {
    sat(a - b)
}

/// Fixed-point product: `(a * b) / SCALE`, rounded toward zero, saturated.
pub open spec fn mul_fp(a: int, b: int) -> int {
    sat(tdiv(a * b, SCALE as int))
}

/// Fixed-point quotient: `(a * SCALE) / b`, rounded toward zero, saturated.
pub open spec fn div_fp(a: int, b: int) -> int {
    sat(tdiv(a * (SCALE as int), b))
}

/// Truncating division by a positive divisor is monotone in the dividend.
pub proof fn lemma_tdiv_mono(a1: int, a2: int, b: int)
    requires
        a1 <= a2,
        b > 0,
    ensures
        tdiv(a1, b) <= tdiv(a2, b),
{
    if a1 >= 0 {
        vstd::arithmetic::div_mod::lemma_div_is_ordered(a1, a2, b);
    } else if a2 < 0 {
        vstd::arithmetic::div_mod::lemma_div_is_ordered(-a2, -a1, b);
    } else {
        vstd::arithmetic::div_mod::lemma_div_is_ordered(0, -a1, b);
        vstd::arithmetic::div_mod::lemma_div_is_ordered(0, a2, b);
    }
}

/// The product of non-negative fixed-point values is non-negative.
pub proof fn lemma_mul_fp_nonneg(a: int, b: int)
    requires
        a >= 0,
        b >= 0,
    ensures
        mul_fp(a, b) >= 0,
{
    vstd::arithmetic::mul::lemma_mul_nonnegative(a, b);
    vstd::arithmetic::div_mod::lemma_div_is_ordered(0, a * b, SCALE as int);
}

/// Saturating fixed-point addition.
pub fn fp_add(a: i64, b: i64) -> (r: i64)
    ensures
        r as int == add_fp(a as int, b as int),
{
    let s: i128 = a as i128 + b as i128;
    if s > SAT_MAX as i128 {
        SAT_MAX
    } else if s < SAT_MIN as i128 {
        SAT_MIN
    } else {
        s as i64
    }
}

/// Saturating fixed-point subtraction.
pub fn fp_sub(a: i64, b: i64) -> (r: i64)
    ensures
        r as int == sub_fp(a as int, b as int),
{
    let s: i128 = a as i128 - b as i128;
    if s > SAT_MAX as i128 {
        SAT_MAX
    } else if s < SAT_MIN as i128 {
        SAT_MIN
    } else {
        s as i64
    }
}

/// Saturating fixed-point multiplication.
pub fn fp_mul(a: i64, b: i64) -> (r: i64)
    ensures
        r as int == mul_fp(a as int, b as int),
{
    proof {
        assert((a as int) * (b as int) <= 0x4000_0000_0000_0000_0000_0000_0000_0000int
            && (a as int) * (b as int) >= -0x4000_0000_0000_0000_0000_0000_0000_0000int)
            by (nonlinear_arith)
            requires
                -0x8000_0000_0000_0000int <= a as int <= 0x7fff_ffff_ffff_ffffint,
                -0x8000_0000_0000_0000int <= b as int <= 0x7fff_ffff_ffff_ffffint,
        ;
    }
    let p: i128 = (a as i128) * (b as i128);
    let m: u128 = if p < 0 {
        (-p) as u128
    } else {
        p as u128
    };
    let q: u128 = m / 65536u128;
    let qs: i64 = if q > SAT_MAX as u128 {
        SAT_MAX
    } else {
        q as i64
    };
    if p < 0 {
        -qs
    } else {
        qs
    }
}

/// Integer square root, by halving the argument's bit width.
pub open spec fn isqrt(n: nat) -> nat
    decreases n,
{
    if n < 4 {
        if n < 1 {
            0
        } else {
            1
        }
    } else {
        let h = isqrt(n / 4);
        if (2 * h + 1) * (2 * h + 1) <= n {
            2 * h + 1
        } else {
            2 * h
        }
    }
}

/// `isqrt(n)` is the floor of the real square root of `n`.
pub proof fn lemma_isqrt(n: nat)
    ensures
        isqrt(n) * isqrt(n) <= n,
        n < (isqrt(n) + 1) * (isqrt(n) + 1),
    decreases n,
{
    let r = isqrt(n);
    if n >= 4 {
        lemma_isqrt(n / 4);
        let h = isqrt(n / 4);
        assert(n == 4 * (n / 4) + n % 4) by {
            vstd::arithmetic::div_mod::lemma_fundamental_div_mod(n as int, 4);
        }
        assert((2 * h) * (2 * h) <= n) by (nonlinear_arith)
            requires
                h * h <= n / 4,
                4 * (n / 4) <= n,
        ;
        assert(n < (2 * h + 2) * (2 * h + 2)) by (nonlinear_arith)
            requires
                n / 4 < (h + 1) * (h + 1),
                n <= 4 * (n / 4) + 3,
        ;
        if (2 * h + 1) * (2 * h + 1) <= n {
            assert(r == 2 * h + 1);
            assert(r * r <= n) by (nonlinear_arith)
                requires
                    r == 2 * h + 1,
                    (2 * h + 1) * (2 * h + 1) <= n,
            ;
            assert(n < (r + 1) * (r + 1)) by (nonlinear_arith)
                requires
                    r == 2 * h + 1,
                    n < (2 * h + 2) * (2 * h + 2),
            ;
        } else {
            assert(r == 2 * h);
            assert(r * r <= n) by (nonlinear_arith)
                requires
                    r == 2 * h,
                    (2 * h) * (2 * h) <= n,
            ;
            assert(n < (r + 1) * (r + 1)) by (nonlinear_arith)
                requires
                    r == 2 * h,
                    !((2 * h + 1) * (2 * h + 1) <= n),
            ;
        }
    } else {
        if n < 1 {
            assert(r == 0);
            assert(r * r <= n && n < (r + 1) * (r + 1)) by (nonlinear_arith)
                requires
                    r == 0,
                    n < 1,
            ;
        } else {
            assert(r == 1);
            assert(r * r <= n && n < (r + 1) * (r + 1)) by (nonlinear_arith)
                requires
                    r == 1,
                    1 <= n < 4,
            ;
        }
    }
}

/// Only one natural number has the floor-square-root property.
pub proof fn lemma_isqrt_unique(n: nat, r: nat)
    requires
        r * r <= n,
        n < (r + 1) * (r + 1),
    ensures
        r == isqrt(n),
{
    lemma_isqrt(n);
    let s = isqrt(n);
    if r < s {
        assert((r + 1) * (r + 1) <= s * s) by (nonlinear_arith)
            requires
                r + 1 <= s,
        ;
    }
    if s < r {
        assert((s + 1) * (s + 1) <= r * r) by (nonlinear_arith)
            requires
                s + 1 <= r,
        ;
    }
}

/// Fixed-point square root: `sqrt(x / SCALE) * SCALE`, rounded down.
/// Total: non-positive arguments map to zero.
pub open spec fn sqrt_fp(x: int) -> int {
    if x <= 0 {
        0
    } else {
        isqrt((x * (SCALE as int)) as nat) as int
    }
}

/// Integer square root by bisection.
fn isqrt_u128(x: u128) -> (r: u128)
    ensures
        r as nat == isqrt(x as nat),
        (r as nat) * (r as nat) <= x as nat,
        (x as nat) < ((r + 1) as nat) * ((r + 1) as nat),
{
    let mut lo: u128 = 0;
    let mut hi: u128 = if x >= 0xffff_ffff_ffff_ffff {
        0x1_0000_0000_0000_0000
    } else {
        x + 1
    };
    proof {
        if x < 0xffff_ffff_ffff_ffff {
            assert((x as int) < ((x + 1) as int) * ((x + 1) as int)) by (nonlinear_arith);
        }
    }
    while lo + 1 < hi
        invariant
            lo < hi,
            hi <= 0x1_0000_0000_0000_0000,
            (lo as nat) * (lo as nat) <= x as nat,
            (x as nat) < (hi as nat) * (hi as nat),
        decreases hi - lo,
    {
        let mid: u128 = lo + (hi - lo) / 2;
        proof {
            assert((mid as int) * (mid as int) < 0x1_0000_0000_0000_0000_0000_0000_0000_0000int)
                by (nonlinear_arith)
                requires
                    0 <= mid as int,
                    (mid as int) < 0x1_0000_0000_0000_0000int,
            ;
        }
        if mid * mid <= x {
            lo = mid;
        } else {
            hi = mid;
        }
    }
    proof {
        lemma_isqrt_unique(x as nat, lo as nat);
    }
    lo
}

/// Saturating fixed-point square root.
pub fn fp_sqrt(x: i64) -> (r: i64)
    ensures
        r as int == sqrt_fp(x as int),
{
    if x <= 0 {
        0
    } else {
        let m: u128 = (x as u128) * 65536;
        let r: u128 = isqrt_u128(m);
        proof {
            assert(r as int <= 0xffff_ffff_ffffint) by (nonlinear_arith)
                requires
                    (r as nat) * (r as nat) <= m as nat,
                    m as nat <= 0x7fff_ffff_ffff_ffffnat * 65536,
            ;
        }
        r as i64
    }
}

/// Saturating fixed-point division.
pub fn fp_div(a: i64, b: i64) -> (r: i64)
    requires
        b != 0,
    ensures
        r as int == div_fp(a as int, b as int),
{
    let n: i128 = (a as i128) * 65536;
    let neg: bool = (n < 0) != (b < 0);
    let nm: u128 = if n < 0 {
        (-n) as u128
    } else {
        n as u128
    };
    let bm: u128 = if b < 0 {
        (-(b as i128)) as u128
    } else {
        b as u128
    };
    let q: u128 = nm / bm;
    let qs: i64 = if q > SAT_MAX as u128 {
        SAT_MAX
    } else {
        q as i64
    };
    if neg {
        -qs
    } else {
        qs
    }
}

/// `(a * m) / d`, rounded toward zero and saturated: a rational rescaling.
pub open spec fn mul_ratio_fp(a: int, m: int, d: int) -> int {
    sat(tdiv(a * m, d))
}

/// Saturating rescaling by the ratio `m / d` of two positive constants.
pub fn fp_mul_ratio(a: i64, m: i64, d: i64) -> (r: i64)
    requires
        m > 0,
        d > 0,
    ensures
        r as int == mul_ratio_fp(a as int, m as int, d as int),
{
    proof {
        assert((a as int) * (m as int) <= 0x4000_0000_0000_0000_0000_0000_0000_0000int
            && (a as int) * (m as int) >= -0x4000_0000_0000_0000_0000_0000_0000_0000int)
            by (nonlinear_arith)
            requires
                -0x8000_0000_0000_0000int <= a as int <= 0x7fff_ffff_ffff_ffffint,
                0 < m as int <= 0x7fff_ffff_ffff_ffffint,
        ;
    }
    let p: i128 = (a as i128) * (m as i128);
    let pm: u128 = if p < 0 {
        (-p) as u128
    } else {
        p as u128
    };
    let q: u128 = pm / (d as u128);
    let qs: i64 = if q > SAT_MAX as u128 {
        SAT_MAX
    } else {
        q as i64
    };
    if p < 0 {
        -qs
    } else {
        qs
    }
}

/// Discriminant of `a*t^2 + b*t + c`, as the solver computes it:
/// `b*b - (4*a)*c` in fixed point.
pub open spec fn disc_fp(a: int, b: int, c: int) -> int {
    sub_fp(mul_fp(b, b), mul_fp(mul_fp(4 * (SCALE as int), a), c))
}

/// The two roots the solver reports when the discriminant is non-negative,
/// in ascending order: `(-b -/+ sqrt(disc)) / (2*a)`.
pub open spec fn quad_roots(a: int, b: int, c: int) -> (int, int) {
    let s = sqrt_fp(disc_fp(a, b, c));
    let nb = sub_fp(0, b);
    let den = add_fp(a, a);
    (div_fp(sub_fp(nb, s), den), div_fp(add_fp(nb, s), den))
}

/// Real roots of `a*t^2 + b*t + c = 0` for a positive leading coefficient,
/// in ascending order; `None` when the discriminant is negative.
pub fn solve_quadratic(a: i64, b: i64, c: i64) -> (r: Option<(i64, i64)>)
    requires
        a > 0,
    ensures
        r is Some <==> disc_fp(a as int, b as int, c as int) >= 0,
        r matches Some(p) ==> (p.0 as int, p.1 as int) == quad_roots(
            a as int,
            b as int,
            c as int,
        ),
        r matches Some(p) ==> p.0 <= p.1,
{
    let d: i64 = fp_sub(fp_mul(b, b), fp_mul(fp_mul(4 * SCALE, a), c));
    if d < 0 {
        None
    } else {
        let s: i64 = fp_sqrt(d);
        let nb: i64 = fp_sub(0, b);
        let den: i64 = fp_add(a, a);
        let x: i64 = fp_div(fp_sub(nb, s), den);
        let y: i64 = fp_div(fp_add(nb, s), den);
        proof {
            lemma_tdiv_mono(
                sub_fp(nb as int, s as int) * (SCALE as int),
                add_fp(nb as int, s as int) * (SCALE as int),
                den as int,
            );
        }
        Some((x, y))
    }
}

} // verus!
