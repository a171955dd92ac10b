//! Fixed-point arithmetic on `i64` values scaled by `SCALE`.
//!
//! A value `x: i64` stands for the real number `x / SCALE`. Products and
//! quotients truncate toward zero, exactly as the contracts state; an
//! operation whose exact result lies outside the symmetric representable
//! range reports `None` instead of wrapping.

use vstd::prelude::*;

verus! {

/// Scale of the fixed-point representation: nine decimal digits.
pub const SCALE: i64 = 1_000_000_000;

/// Largest representable magnitude. The range is kept symmetric so that
/// negation is total on representable values.
pub const FIX_MAX: i64 = 0x7fff_ffff_ffff_ffff;

/// A mathematical value is representable when its magnitude is at most
/// `FIX_MAX`.
pub open spec fn fits(v: int) -> bool {
    -(FIX_MAX as int) <= v <= FIX_MAX as int
}

/// Quotient of `a` by `b` truncated toward zero (the semantics of Rust's
/// integer division), meaningful for `b != 0`.
pub open spec fn quot(a: int, b: int) -> int {
    if a >= 0 && b > 0 {
        a / b
    } else if a < 0 && b > 0 {
        -((-a) / b)
    } else if a >= 0 {
        -(a / (-b))
    } else {
        (-a) / (-b)
    }
}

/// Exact fixed-point product: `a * b` rescaled, truncated toward zero.
pub open spec fn fmul_spec(a: int, b: int) -> int {
    quot(a * b, SCALE as int)
}

/// Exact fixed-point quotient: `a / b` rescaled, truncated toward zero.
pub open spec fn fdiv_spec(a: int, b: int) -> int {
    quot(a * SCALE, b)
}

/// Exact halving, truncated toward zero.
pub open spec fn half_spec(a: int) -> int {
    quot(a, 2)
}

/// `r` is the floor square root of the fixed-point value `x`, that is, the
/// largest fixed-point value whose square does not exceed `x`.
pub open spec fn is_sqrt(x: int, r: int) -> bool {
    &&& r >= 0
    &&& r * r <= x * SCALE
    &&& x * SCALE < (r + 1) * (r + 1)
}

/// The floor square root of a non-negative fixed-point value.
pub open spec fn sqrt_spec(x: int) -> int {
    choose|r: int| is_sqrt(x, r)
}

/// Fixed-point addition; `None` when the sum is not representable.
pub fn fadd(a: i64, b: i64) -> (r: Option<i64>)
    ensures
        r is Some <==> fits(a + b),
        r matches Some(v) ==> v == a + b,
{
    match a.checked_add(b) {
        Some(s) => if s == i64::MIN {
            None
        } else {
            Some(s)
        },
        None => None,
    }
}

/// Fixed-point subtraction; `None` when the difference is not representable.
pub fn fsub(a: i64, b: i64) -> (r: Option<i64>)
    ensures
        r is Some <==> fits(a - b),
        r matches Some(v) ==> v == a - b,
{
    match a.checked_sub(b) {
        Some(s) => if s == i64::MIN {
            None
        } else {
            Some(s)
        },
        None => None,
    }
}

/// Fixed-point negation; `None` only for the one unrepresentable magnitude.
pub fn fneg(a: i64) -> (r: Option<i64>)
    ensures
        r is Some <==> fits(-a),
        r matches Some(v) ==> v == -a,
{
    if a == i64::MIN {
        None
    } else {
        Some(-a)
    }
}

/// Halves a fixed-point value, truncating toward zero; always representable.
pub fn fhalf(a: i64) -> (r: i64)
    ensures
        r == half_spec(a as int),
{
    if a >= 0 {
        ((a as u128) / 2) as i64
    } else {
        let m: u128 = (-(a as i128)) as u128;
        let h: u128 = m / 2;
        proof {
            assert(h <= m);
        }
        -(h as i64)
    }
}

/// Magnitude of an `i64` as a `u128`; total, also on the minimum value.
fn magnitude(a: i64) -> (m: u128)
    ensures
        m == if a >= 0 {
            a as int
        } else {
            -(a as int)
        },
{
    if a >= 0 {
        a as u128
    } else {
        (-(a as i128)) as u128
    }
}

/// `quot` of a product, expressed through the magnitudes of the factors.
proof fn lemma_quot_of_product(a: int, b: int, d: int, ma: int, mb: int)
    requires
        d > 0,
        ma == if a >= 0 { a } else { -a },
        mb == if b >= 0 { b } else { -b },
    ensures
        ((a >= 0) == (b >= 0)) ==> quot(a * b, d) == (ma * mb) / d,
        ((a >= 0) != (b >= 0)) ==> quot(a * b, d) == -((ma * mb) / d),
{
    assert(a * b == if (a >= 0) == (b >= 0) { ma * mb } else { -(ma * mb) })
        by (nonlinear_arith)
        requires
            ma == if a >= 0 { a } else { -a },
            mb == if b >= 0 { b } else { -b },
    ;
    assert(ma * mb >= 0) by (nonlinear_arith)
        requires
            ma >= 0,
            mb >= 0,
    ;
    if (a >= 0) != (b >= 0) {
        if a * b == 0 {
            assert(ma * mb == 0);
            assert(quot(0, d) == 0);
        }
    }
}

/// A fixed-point product of non-negative values is non-negative.
pub proof fn lemma_fmul_nonneg(a: int, b: int)
    requires
        a >= 0,
        b >= 0,
    ensures
        fmul_spec(a, b) >= 0,
{
    vstd::arithmetic::mul::lemma_mul_nonnegative(a, b);
    vstd::arithmetic::div_mod::lemma_div_pos_is_pos(a * b, SCALE as int);
}

/// A fixed-point quotient of a non-negative value by a positive one is
/// non-negative.
pub proof fn lemma_fdiv_nonneg(a: int, b: int)
    requires
        a >= 0,
        b > 0,
    ensures
        fdiv_spec(a, b) >= 0,
{
    vstd::arithmetic::mul::lemma_mul_nonnegative(a, SCALE as int);
    vstd::arithmetic::div_mod::lemma_div_pos_is_pos(a * SCALE, b);
}

/// Scaling by one is the identity.
pub proof fn lemma_fmul_one(a: int)
    ensures
        fmul_spec(a, SCALE as int) == a,
{
    if a >= 0 {
        vstd::arithmetic::mul::lemma_mul_nonnegative(a, SCALE as int);
        vstd::arithmetic::div_mod::lemma_div_multiples_vanish(a, SCALE as int);
        assert(a * SCALE == SCALE * a) by (nonlinear_arith);
    } else {
        vstd::arithmetic::mul::lemma_mul_nonnegative(-a, SCALE as int);
        vstd::arithmetic::div_mod::lemma_div_multiples_vanish(-a, SCALE as int);
        assert(a * SCALE == -((-a) * SCALE) && (-a) * SCALE == SCALE * (-a)) by (nonlinear_arith);
    }
}

/// Scaling by zero gives zero.
pub proof fn lemma_fmul_zero(a: int)
    ensures
        fmul_spec(a, 0) == 0,
        fmul_spec(0, a) == 0,
{
    assert(a * 0 == 0 && 0 * a == 0) by (nonlinear_arith);
    vstd::arithmetic::div_mod::lemma_div_pos_is_pos(0, SCALE as int);
    vstd::arithmetic::div_mod::lemma_div_nonincreasing(0, SCALE as int);
}

/// A fixed-point square is never negative.
pub proof fn lemma_square_nonneg(x: int)
    ensures
        fmul_spec(x, x) >= 0,
{
    assert(x * x >= 0) by (nonlinear_arith);
}

/// Fixed-point multiplication; `None` when the result is not representable.
pub fn fmul(a: i64, b: i64) -> (r: Option<i64>)
    ensures
        r is Some <==> fits(fmul_spec(a as int, b as int)),
        r matches Some(v) ==> v == fmul_spec(a as int, b as int),
{
    let neg: bool = (a < 0) != (b < 0);
    let ma: u128 = magnitude(a);
    let mb: u128 = magnitude(b);
    proof {
        assert(ma * mb <= 0x8000_0000_0000_0000u128 * 0x8000_0000_0000_0000u128)
            by (nonlinear_arith)
            requires
                0 <= ma <= 0x8000_0000_0000_0000u128,
                0 <= mb <= 0x8000_0000_0000_0000u128,
        ;
        lemma_quot_of_product(a as int, b as int, SCALE as int, ma as int, mb as int);
    }
    let q: u128 = (ma * mb) / (SCALE as u128);
    if q > FIX_MAX as u128 {
        None
    } else if neg {
        Some(-(q as i64))
    } else {
        Some(q as i64)
    }
}

/// Fixed-point division; `None` when the divisor is zero or the quotient is
/// not representable.
pub fn fdiv(a: i64, b: i64) -> (r: Option<i64>)
    ensures
        r is Some <==> b != 0 && fits(fdiv_spec(a as int, b as int)),
        r matches Some(v) ==> v == fdiv_spec(a as int, b as int),
{
    if b == 0 {
        return None;
    }
    let neg: bool = (a < 0) != (b < 0);
    let ma: u128 = magnitude(a);
    let mb: u128 = magnitude(b);
    proof {
        assert(ma * (SCALE as u128) <= 0x8000_0000_0000_0000u128 * (SCALE as u128))
            by (nonlinear_arith)
            requires
                0 <= ma <= 0x8000_0000_0000_0000u128,
        ;
        lemma_magnitude_div(a as int * SCALE as int, b as int, ma as int * SCALE as int, mb as int);
    }
    let q: u128 = (ma * (SCALE as u128)) / mb;
    if q > FIX_MAX as u128 {
        None
    } else if neg {
        Some(-(q as i64))
    } else {
        Some(q as i64)
    }
}

/// `quot` by a divisor of either sign, expressed through magnitudes.
proof fn lemma_magnitude_div(n: int, b: int, mn: int, mb: int)
    requires
        b != 0,
        mn == if n >= 0 { n } else { -n },
        mb == if b >= 0 { b } else { -b },
    ensures
        ((n >= 0) == (b >= 0)) ==> quot(n, b) == mn / mb,
        ((n >= 0) != (b >= 0)) ==> quot(n, b) == -(mn / mb),
{
    if n >= 0 && b > 0 {
    } else if n < 0 && b > 0 {
    } else if n >= 0 {
    } else {
    }
}

/// Floor square root of a non-negative fixed-point value, by bisection.
pub fn fsqrt(x: i64) -> (r: i64)
    requires
        x >= 0,
    ensures
        is_sqrt(x as int, r as int),
        r == sqrt_spec(x as int),
{
    proof {
        assert((x as u128) * (SCALE as u128) < 0x8000_0000_0000u128 * 0x8000_0000_0000u128)
            by (nonlinear_arith)
            requires
                x as u128 <= 0x7fff_ffff_ffff_ffffu128,
                SCALE as u128 == 1_000_000_000u128,
        ;
    }
    let n: u128 = (x as u128) * (SCALE as u128);
    let mut lo: u128 = 0;
    let mut hi: u128 = 0x8000_0000_0000u128;
    while lo + 1 < hi
        invariant
            lo < hi <= 0x8000_0000_0000u128,
            (lo * lo) <= n,
            n < hi * hi,
        decreases hi - lo,
    {
        let mid: u128 = lo + (hi - lo) / 2;
        proof {
            assert(mid * mid <= 0x8000_0000_0000u128 * 0x8000_0000_0000u128)
                by (nonlinear_arith)
                requires
                    0 <= mid <= 0x8000_0000_0000u128,
            ;
        }
        if mid * mid <= n {
            lo = mid;
        } else {
            hi = mid;
        }
    }
    proof {
        assert(lo <= 0x7fff_ffff_ffff_ffffu128);
        assert(is_sqrt(x as int, lo as int));
        lemma_sqrt_unique(x as int, lo as int);
    }
    lo as i64
}

/// The floor square root is unique, so the bisection result is `sqrt_spec`.
proof fn lemma_sqrt_unique(x: int, r: int)
    requires
        is_sqrt(x, r),
    ensures
        sqrt_spec(x) == r,
{
    let c = choose|s: int| is_sqrt(x, s);
    assert(is_sqrt(x, c));
    assert(c == r) by (nonlinear_arith)
        requires
            is_sqrt(x, c),
            is_sqrt(x, r),
    ;
}

} // verus!
