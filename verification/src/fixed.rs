//! Fixed-point scalars: an `i64` holds a real value scaled by `SCALE`.
//!
//! Division truncates toward zero (Rust's `/`), written `divt` in
//! specifications; square roots round down, written `sqrt_floor`.

use vstd::prelude::*;

verus! {

/// One whole unit: raw values are the real value times this scale.
pub const SCALE: i64 = 65536;

/// Truncating (round-toward-zero) division: the quotient of the magnitudes,
/// negated when the signs of the operands differ.
pub open spec fn divt(a: int, b: int) -> int
    recommends
        b != 0,
{
    let q = abs1(a) / abs1(b);
    if (a >= 0) == (b >= 0) {
        q
    } else {
        -q
    }
}

/// Fixed-point product: the scaled product of two raw values.
pub open spec fn fmul(a: int, b: int) -> int {
    divt(a * b, SCALE as int)
}

/// Fixed-point quotient: the scaled ratio of two raw values.
pub open spec fn fdiv(a: int, b: int) -> int
    recommends
        b != 0,
{
    divt(a * (SCALE as int), b)
}

/// The integer square root, rounded down; 0 for negative arguments.
pub open spec fn sqrt_floor(x: int) -> int
    decreases x,
{
    if x < 1 {
        0
    } else {
        let p = sqrt_floor(x - 1);
        if (p + 1) * (p + 1) <= x {
            p + 1
        } else {
            p
        }
    }
}

/// `sqrt_floor(x)` is the unique `r >= 0` with `r * r <= x < (r + 1) * (r + 1)`.
pub proof fn lemma_sqrt_floor_bracket(x: int)
    requires
        x >= 0,
    ensures
        0 <= sqrt_floor(x),
        sqrt_floor(x) * sqrt_floor(x) <= x,
        x < (sqrt_floor(x) + 1) * (sqrt_floor(x) + 1),
    decreases x,
{
    if x < 1 {
    } else {
        lemma_sqrt_floor_bracket(x - 1);
        let p = sqrt_floor(x - 1);
        if (p + 1) * (p + 1) <= x {
            assert(x < (p + 2) * (p + 2)) by (nonlinear_arith)
                requires
                    x - 1 < (p + 1) * (p + 1),
                    p >= 0,
            ;
        }
    }
}

/// Any `r` bracketed by squares around `x` is `sqrt_floor(x)`.
pub proof fn lemma_sqrt_floor_unique(x: int, r: int)
    requires
        x >= 0,
        r >= 0,
        r * r <= x,
        x < (r + 1) * (r + 1),
    ensures
        r == sqrt_floor(x),
{
    lemma_sqrt_floor_bracket(x);
    let s = sqrt_floor(x);
    assert(r == s) by (nonlinear_arith)
        requires
            r >= 0,
            s >= 0,
            r * r <= x,
            x < (r + 1) * (r + 1),
            s * s <= x,
            x < (s + 1) * (s + 1),
    ;
}

/// Truncating division shrinks magnitudes: `|divt(a, b)| <= |a|` for `|b| >= 1`.
pub proof fn lemma_divt_abs_le(a: int, b: int, bound: int)
    requires
        b != 0,
        -bound <= a <= bound,
    ensures
        -bound <= divt(a, b) <= bound,
{
    lemma_divt_abs_div(a, b, bound);
}

/// The magnitude of a truncating quotient is at most `bound / |b|`.
pub proof fn lemma_divt_abs_div(a: int, b: int, bound: int)
    requires
        b != 0,
        -bound <= a <= bound,
    ensures
        -(bound / abs1(b)) <= divt(a, b) <= bound / abs1(b),
        -bound <= divt(a, b) <= bound,
{
    let m = abs1(b);
    let n = abs1(a);
    assert(0 <= n / m <= bound / m) by {
        vstd::arithmetic::div_mod::lemma_div_is_ordered(n, bound, m);
        vstd::arithmetic::div_mod::lemma_div_pos_is_pos(n, m);
    }
    assert(bound / m <= bound) by {
        vstd::arithmetic::div_mod::lemma_div_is_ordered_by_denominator(bound, 1, m);
        assert(bound / 1int == bound);
    }
}

/// An exact division: the quotient of `d * q` by `d` is `q`.
pub proof fn lemma_div_exact(d: int, q: int)
    requires
        d > 0,
    ensures
        (d * q) / d == q,
{
    vstd::arithmetic::div_mod::lemma_div_multiples_vanish(q, d);
}

/// The smaller of two integers.
pub open spec fn smin_int(a: int, b: int) -> int {
    if a < b {
        a
    } else {
        b
    }
}

/// The larger of two integers.
pub open spec fn smax_int(a: int, b: int) -> int {
    if a < b {
        b
    } else {
        a
    }
}

/// The spec-level absolute value.
pub open spec fn abs1(a: int) -> int {
    if a >= 0 {
        a
    } else {
        -a
    }
}

/// The magnitude of a product is the product of the magnitudes.
pub proof fn lemma_abs_mul(a: int, b: int)
    ensures
        abs1(a * b) == abs1(a) * abs1(b),
{
    if a >= 0 && b >= 0 {
        assert(a * b >= 0) by (nonlinear_arith)
            requires
                a >= 0,
                b >= 0,
        ;
    } else if a < 0 && b < 0 {
        assert(a * b >= 0 && (-a) * (-b) == a * b) by (nonlinear_arith)
            requires
                a < 0,
                b < 0,
        ;
    } else if a >= 0 && b < 0 {
        assert(a * b <= 0 && a * (-b) == -(a * b)) by (nonlinear_arith)
            requires
                a >= 0,
                b < 0,
        ;
    } else {
        assert(a * b <= 0 && (-a) * b == -(a * b)) by (nonlinear_arith)
            requires
                a < 0,
                b >= 0,
        ;
    }
}

/// Bounded factors give a bounded product.
pub proof fn lemma_mul_abs_bound(a: int, b: int, ab: int, bb: int)
    by (nonlinear_arith)
    requires
        -ab <= a <= ab,
        -bb <= b <= bb,
    ensures
        -(ab * bb) <= a * b <= ab * bb,
{
}

/// Truncating division is monotone in the numerator for a positive divisor.
pub proof fn lemma_divt_ordered(a1: int, a2: int, b: int)
    requires
        a1 <= a2,
        b > 0,
    ensures
        divt(a1, b) <= divt(a2, b),
{
    if a1 >= 0 {
        vstd::arithmetic::div_mod::lemma_div_is_ordered(a1, a2, b);
    } else if a2 >= 0 {
        vstd::arithmetic::div_mod::lemma_div_pos_is_pos(a2, b);
        vstd::arithmetic::div_mod::lemma_div_pos_is_pos(-a1, b);
    } else {
        vstd::arithmetic::div_mod::lemma_div_is_ordered(-a2, -a1, b);
    }
}

/// The smaller of two raw scalars.
pub fn minf(a: i64, b: i64) -> (r: i64)
    ensures
        r == if a < b {
            a
        } else {
            b
        },
{
    if a < b {
        a
    } else {
        b
    }
}

/// The larger of two raw scalars.
pub fn maxf(a: i64, b: i64) -> (r: i64)
    ensures
        r == if a < b {
            b
        } else {
            a
        },
{
    if a < b {
        b
    } else {
        a
    }
}

/// Truncating division on raw scalars, the executable form of `divt`.
pub fn divt_i64(a: i64, b: i64) -> (r: i64)
    requires
        b != 0,
        a != i64::MIN,
        b != i64::MIN,
    ensures
        r == divt(a as int, b as int),
        -abs1(a as int) <= r <= abs1(a as int),
{
    proof {
        lemma_divt_abs_le(a as int, b as int, abs1(a as int));
    }
    let an: i64 = if a < 0 {
        -a
    } else {
        a
    };
    let bn: i64 = if b < 0 {
        -b
    } else {
        b
    };
    let q = an / bn;
    if (a < 0) != (b < 0) {
        -q
    } else {
        q
    }
}

/// Truncating division on wide intermediates.
pub fn divt_i128(a: i128, b: i128) -> (r: i128)
    requires
        b != 0,
        a != i128::MIN,
        b != i128::MIN,
    ensures
        r == divt(a as int, b as int),
        -abs1(a as int) <= r <= abs1(a as int),
{
    proof {
        lemma_divt_abs_le(a as int, b as int, abs1(a as int));
    }
    let an: i128 = if a < 0 {
        -a
    } else {
        a
    };
    let bn: i128 = if b < 0 {
        -b
    } else {
        b
    };
    let q = an / bn;
    if (a < 0) != (b < 0) {
        -q
    } else {
        q
    }
}

/// Fixed-point multiplication of raw scalars, exact per `fmul`.
pub fn fmul_i64(a: i64, b: i64) -> (r: i64)
    requires
        abs1(a as int) * abs1(b as int) <= 0x40000000000000000000int,
    ensures
        r == fmul(a as int, b as int),
        -0x4000000000000000 <= r <= 0x4000000000000000,
{
    proof {
        lemma_abs_mul(a as int, b as int);
    }
    let p: i128 = (a as i128) * (b as i128);
    assert(-0x40000000000000000000 <= p <= 0x40000000000000000000);
    let q = divt_i128(p, SCALE as i128);
    proof {
        lemma_divt_abs_div(p as int, SCALE as int, 0x40000000000000000000int);
        assert(0x40000000000000000000int / 65536int == 0x4000000000000000int);
    }
    q as i64
}

/// Fixed-point division of raw scalars, exact per `fdiv`.
pub fn fdiv_i64(a: i64, b: i64) -> (r: i64)
    requires
        b != 0,
        -0x400000000000 <= a <= 0x400000000000,
    ensures
        r == fdiv(a as int, b as int),
        -0x4000000000000000 <= r <= 0x4000000000000000,
{
    let p: i128 = (a as i128) * 65536;
    assert(-0x4000000000000000 <= p <= 0x4000000000000000);
    let q = divt_i128(p, b as i128);
    proof {
        lemma_divt_abs_le(p as int, b as int, 0x4000000000000000int);
    }
    q as i64
}

/// The integer square root of a non-negative 128-bit value.
pub fn isqrt_u128(x: u128) -> (r: u64)
    ensures
        r == sqrt_floor(x as int),
{
    let mut lo: u128 = 0;
    let mut hi: u128 = 0x10000000000000000;
    proof {
        assert((0x10000000000000000int) * (0x10000000000000000int)
            == 0x100000000000000000000000000000000int);
    }
    while hi - lo > 1
        invariant
            0 <= lo < hi <= 0x10000000000000000u128,
            (lo as int) * (lo as int) <= x as int,
            (x as int) < (hi as int) * (hi as int),
        decreases hi - lo,
    {
        let mid = lo + (hi - lo) / 2;
        assert(lo < mid < hi);
        proof {
            assert((mid as int) * (mid as int) < 0x100000000000000000000000000000000int)
                by (nonlinear_arith)
                requires
                    0 <= (mid as int) < 0x10000000000000000int,
            ;
        }
        if mid * mid <= x {
            lo = mid;
        } else {
            hi = mid;
        }
    }
    proof {
        lemma_sqrt_floor_unique(x as int, lo as int);
    }
    lo as u64
}

} // verus!
