//! Standard normal distribution primitives over fixed-point values.
//!
//! The error function, exponential and logarithm are evaluated by
//! `rust_decimal`; their fixed-point renderings are named by uninterpreted
//! spec functions. The cumulative distribution function and the density are
//! computed here, in verified code, from those primitives:
//! `Phi(x) = (1 + erf(x / sqrt(2))) / 2` and
//! `phi(x) = exp(-x^2 / 2) / sqrt(2 pi)`.

use vstd::prelude::*;
use rust_decimal::Decimal;
use rust_decimal::MathematicalOps;
use crate::fixed::SCALE;
use crate::fixed::fits;
use crate::fixed::quot;
use crate::fixed::fdiv_spec;
use crate::fixed::fmul_spec;
use crate::fixed::half_spec;
use crate::fixed::fdiv;
use crate::fixed::fmul;
use crate::fixed::fhalf;
use vstd::arithmetic::div_mod::lemma_div_is_ordered;
use vstd::arithmetic::div_mod::lemma_div_is_ordered_by_denominator;
use vstd::arithmetic::div_mod::lemma_div_pos_is_pos;
use vstd::arithmetic::div_mod::lemma_div_multiples_vanish;
use vstd::arithmetic::mul::lemma_mul_nonnegative;

verus! {

/// The square root of two, fixed-point.
pub const SQRT_2: i64 = 1_414_213_562;

/// The square root of two pi, fixed-point.
pub const SQRT_TWO_PI: i64 = 2_506_628_274;

/// Magnitude up to which the error function is evaluated.
pub const ERF_DOMAIN: i64 = 8_000_000_000;

/// Magnitude beyond which the cumulative distribution saturates at zero or
/// one: at nine digits of precision the tail mass is gone well before it.
pub const CDF_SAT: i64 = 11_000_000_000;

/// The fixed-point rendering of `rust_decimal`'s error function at a
/// non-negative argument.
pub uninterp spec fn erf_fp(x: int) -> i64;

/// A value clipped to `[0, 1]`, the range the error function's magnitude
/// stays in.
pub open spec fn clip_unit(e: int) -> int {
    if e < 0 {
        0
    } else if e > SCALE {
        SCALE as int
    } else {
        e
    }
}

/// The error function for arguments of either sign: odd and bounded by one
/// by construction, exactly as the external code computes it.
pub open spec fn erf_val(x: int) -> int {
    if x > 0 {
        clip_unit(erf_fp(x) as int)
    } else if x == 0 {
        0
    } else {
        -clip_unit(erf_fp(-x) as int)
    }
}

/// Relies on rust_decimal's `MathematicalOps::erf`. The result depends on the
/// argument alone; the external code computes a negative argument as the
/// negated evaluation of the magnitude, and for a non-negative argument the
/// result is `1 - 1/s` for some `s >= 1`, hence within `[0, 1]`. Within the
/// required domain no intermediate exceeds the decimal range.
#[verifier::external_body]
fn erf_fixed(x: i64) -> (r: i64)
    requires
        -ERF_DOMAIN <= x <= ERF_DOMAIN,
    ensures
        r as int == erf_val(x as int),
        0 < x ==> r == erf_fp(x as int),
        0 <= x ==> 0 <= r <= SCALE,
        x <= 0 ==> -SCALE <= r <= 0,
{
    let mut d = Decimal::new(x, 9).erf();
    d.rescale(9);
    d.mantissa() as i64
}

/// The fixed-point rendering of `rust_decimal`'s exponential; nothing when
/// the evaluation or the rendering leaves the representable range.
pub uninterp spec fn exp_fp(x: int) -> Option<i64>;

/// Relies on rust_decimal's `MathematicalOps::checked_exp`. The result
/// depends on the argument alone; `exp(0) == 1`; a result is never negative,
/// since the external code sums positive terms and takes a reciprocal for a
/// negative argument, which also keeps results for non-positive arguments at
/// most one.
#[verifier::external_body]
fn exp_fixed(x: i64) -> (r: Option<i64>)
    ensures
        r == exp_fp(x as int),
        r matches Some(v) ==> v >= 0,
        x <= 0 ==> (r matches Some(v) ==> v <= SCALE),
        x == 0 ==> r == Some(SCALE),
{
    match Decimal::new(x, 9).checked_exp() {
        Some(mut d) => {
            d.rescale(9);
            if d.scale() == 9 {
                i64::try_from(d.mantissa()).ok()
            } else {
                None
            }
        },
        None => None,
    }
}

/// The fixed-point rendering of `rust_decimal`'s natural logarithm; nothing
/// when the argument is non-positive or the evaluation fails.
pub uninterp spec fn ln_fp(x: int) -> Option<i64>;

/// Relies on rust_decimal's `MathematicalOps::checked_ln`. The result depends
/// on the argument alone, and the external code returns nothing for a
/// non-positive argument.
#[verifier::external_body]
fn ln_fixed(x: i64) -> (r: Option<i64>)
    ensures
        r == ln_fp(x as int),
        x <= 0 ==> r is None,
{
    match Decimal::new(x, 9).checked_ln() {
        Some(mut d) => {
            d.rescale(9);
            if d.scale() == 9 {
                i64::try_from(d.mantissa()).ok()
            } else {
                None
            }
        },
        None => None,
    }
}

/// Exponential of a fixed-point value; see `exp_fixed`.
pub fn fexp(x: i64) -> (r: Option<i64>)
    ensures
        r == exp_fp(x as int),
        r matches Some(v) ==> v >= 0,
        x <= 0 ==> (r matches Some(v) ==> v <= SCALE),
        x == 0 ==> r == Some(SCALE),
{
    exp_fixed(x)
}

/// Natural logarithm of a fixed-point value; see `ln_fixed`.
pub fn fln(x: i64) -> (r: Option<i64>)
    ensures
        r == ln_fp(x as int),
        x <= 0 ==> r is None,
{
    ln_fixed(x)
}

/// The standard normal cumulative distribution function, fixed-point: the
/// value of `(1 + erf(x / sqrt(2))) / 2`, saturating at zero and one where
/// the scaled argument leaves the error function's evaluation domain.
pub open spec fn cdf_spec(x: int) -> int {
    if x > CDF_SAT {
        SCALE as int
    } else if x < -CDF_SAT {
        0
    } else {
        half_spec(SCALE + erf_val(fdiv_spec(x, SQRT_2 as int)))
    }
}

/// A fixed-point quotient by a divisor at least `SCALE` never grows the
/// magnitude.
pub proof fn lemma_fdiv_le(a: int, b: int)
    requires
        b >= SCALE,
    ensures
        a >= 0 ==> 0 <= fdiv_spec(a, b) <= a,
        a < 0 ==> a <= fdiv_spec(a, b) <= 0,
{
    let m = if a >= 0 { a } else { -a };
    lemma_mul_nonnegative(m, SCALE as int);
    lemma_div_pos_is_pos(m * SCALE, b);
    lemma_div_is_ordered_by_denominator(m * SCALE, SCALE as int, b);
    lemma_div_multiples_vanish(m, SCALE as int);
    assert((m * SCALE) / (SCALE as int) == m);
    if a < 0 {
        assert(a * SCALE == -(m * SCALE));
        assert(quot(a * SCALE, b) == -((m * SCALE) / b));
    }
}

/// Within the saturation bound, the scaled argument of the error function
/// stays within its evaluation domain.
proof fn lemma_cdf_arg_bound(x: int)
    requires
        -CDF_SAT <= x <= CDF_SAT,
    ensures
        -ERF_DOMAIN <= fdiv_spec(x, SQRT_2 as int) <= ERF_DOMAIN,
{
    let m = if x >= 0 { x } else { -x };
    lemma_mul_nonnegative(m, SCALE as int);
    lemma_div_pos_is_pos(m * SCALE, SQRT_2 as int);
    lemma_div_is_ordered(m * SCALE, (CDF_SAT as int) * SCALE, SQRT_2 as int);
    assert(((CDF_SAT as int) * SCALE) / (SQRT_2 as int) <= ERF_DOMAIN as int);
    if x < 0 {
        assert(x * SCALE == -(m * SCALE));
        assert(quot(x * SCALE, SQRT_2 as int) == -((m * SCALE) / (SQRT_2 as int)));
    }
}

/// The standard normal cumulative distribution function. Always defined, and
/// always within `[0, 1]`.
pub fn norm_cdf(x: i64) -> (r: i64)
    ensures
        r as int == cdf_spec(x as int),
        0 <= r <= SCALE,
{
    if x > CDF_SAT {
        return SCALE;
    }
    if x < -CDF_SAT {
        return 0;
    }
    proof {
        lemma_fdiv_le(x as int, SQRT_2 as int);
        lemma_cdf_arg_bound(x as int);
    }
    let t = match fdiv(x, SQRT_2) {
        Some(t) => t,
        None => 0,  // unreachable: the quotient always fits
    };
    let e = erf_fixed(t);
    fhalf(SCALE + e)
}

/// The standard normal probability density, fixed-point: the value of
/// `exp(-x^2/2) / sqrt(2 pi)`, or nothing where the square or the
/// exponential leaves the representable range.
pub open spec fn pdf_spec(x: int) -> Option<int> {
    if !fits(fmul_spec(x, x)) {
        None
    } else {
        match exp_fp(-half_spec(fmul_spec(x, x))) {
            Some(e) => Some(fdiv_spec(e as int, SQRT_TWO_PI as int)),
            None => None,
        }
    }
}

/// The standard normal probability density. A result is within `[0, 1]`.
pub fn norm_pdf(x: i64) -> (r: Option<i64>)
    ensures
        r is Some <==> pdf_spec(x as int) is Some,
        r matches Some(v) ==> Some(v as int) == pdf_spec(x as int) && 0 <= v <= SCALE,
{
    let sq = match fmul(x, x) {
        Some(s) => s,
        None => {
            return None;
        },
    };
    proof {
        crate::fixed::lemma_square_nonneg(x as int);
    }
    let h = fhalf(sq);
    let e = match fexp(-h) {
        Some(e) => e,
        None => {
            return None;
        },
    };
    proof {
        lemma_fdiv_le(e as int, SQRT_TWO_PI as int);
    }
    match fdiv(e, SQRT_TWO_PI) {
        Some(v) => Some(v),
        None => None,  // unreachable: the quotient always fits
    }
}

/// The cumulative distribution lies within `[0, 1]`.
pub proof fn lemma_cdf_bounds(x: int)
    ensures
        0 <= cdf_spec(x) <= SCALE,
{
}

/// The cumulative distribution of `x` and of `-x` sum to one, up to the one
/// truncated fixed-point digit.
pub proof fn lemma_cdf_parity(x: int)
    ensures
        SCALE - 1 <= cdf_spec(x) + cdf_spec(-x) <= SCALE,
{
    lemma_quot_neg(x * SCALE, SQRT_2 as int);
    assert((-x) * SCALE == -(x * SCALE));
    let t = fdiv_spec(x, SQRT_2 as int);
    assert(fdiv_spec(-x, SQRT_2 as int) == -t);
    if -CDF_SAT <= x <= CDF_SAT {
        assert(erf_val(-t) == -erf_val(t));
        lemma_halves_sum(SCALE + erf_val(t), SCALE - erf_val(t));
    }
}

/// Truncating quotient of a negated dividend.
pub proof fn lemma_quot_neg(a: int, b: int)
    requires
        b > 0,
    ensures
        quot(-a, b) == -quot(a, b),
{
}

/// Two values that sum to twice the scale have truncated halves that sum to
/// the scale, up to one unit.
pub proof fn lemma_halves_sum(a: int, b: int)
    requires
        a + b == 2 * (SCALE as int),
    ensures
        SCALE - 1 <= half_spec(a) + half_spec(b) <= SCALE,
{
    if a >= 0 && b >= 0 {
        assert(SCALE - 1 <= a / 2 + b / 2 <= SCALE) by (nonlinear_arith)
            requires
                a >= 0,
                b >= 0,
                a + b == 2 * (SCALE as int),
        ;
    } else if a < 0 {
        assert(half_spec(a) == -((-a) / 2));
        assert(SCALE - 1 <= -((-a) / 2) + b / 2 <= SCALE) by (nonlinear_arith)
            requires
                a < 0,
                b >= 0,
                a + b == 2 * (SCALE as int),
        ;
    } else {
        assert(half_spec(b) == -((-b) / 2));
        assert(SCALE - 1 <= a / 2 + -((-b) / 2) <= SCALE) by (nonlinear_arith)
            requires
                b < 0,
                a >= 0,
                a + b == 2 * (SCALE as int),
        ;
    }
}

} // verus!
