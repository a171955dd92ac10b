//! The Black-Scholes-Merton pricer for European vanilla options.
//!
//! An `EuropeanOption` is an immutable bundle of market and contract
//! parameters, every one a fixed-point value scaled by `SCALE`. The pricing
//! and sensitivity methods evaluate the closed-form model; when `volatility`
//! is unknown but a market price was observed, `implied_vol` inverts the
//! model with Newton-Raphson iteration seeded by the Brenner-Subrahmanyam
//! approximation.
//!
//! Every method's contract pins the result exactly: the spec functions below
//! mirror the fixed-point evaluation, step by step, over the named external
//! primitives, and say precisely which error is returned on which inputs.

use vstd::prelude::*;
use crate::fixed::SCALE;
use crate::fixed::fits;
use crate::fixed::fmul_spec;
use crate::fixed::fdiv_spec;
use crate::fixed::half_spec;
use crate::fixed::sqrt_spec;
use crate::fixed::fadd;
use crate::fixed::fsub;
use crate::fixed::fneg;
use crate::fixed::fmul;
use crate::fixed::fdiv;
use crate::fixed::fhalf;
use crate::fixed::fsqrt;
use crate::normal::cdf_spec;
use crate::normal::pdf_spec;
use crate::normal::exp_fp;
use crate::normal::ln_fp;
use crate::normal::norm_cdf;
use crate::normal::norm_pdf;
use crate::normal::fexp;
use crate::normal::fln;

verus! {

/// Pi, fixed-point.
pub const PI_FIX: i64 = 3_141_592_653;

/// Two pi, fixed-point.
pub const TWO_PI_FIX: i64 = 6_283_185_307;

/// Two, fixed-point.
pub const TWO_FIX: i64 = 2_000_000_000;

/// Convergence tolerance of the implied-volatility solver: 1e-4.
pub const IV_TOLERANCE: i64 = 100_000;

/// Iteration cap of the implied-volatility solver.
pub const IV_MAX_ITER: u64 = 100;

/// How a pricing query can fail.
#[derive(Clone, Copy, Debug, PartialEq, Eq, Structural)]
pub enum PriceError {
    /// A method needed `vol` (pricing, sensitivities) or `observed_price`
    /// (implied volatility) and the field is absent.
    MissingParameter,
    /// `strike`, `spot`, `tau` or a present `vol` is not positive.
    InvalidDomain,
    /// An intermediate value left the representable fixed-point range, or a
    /// primitive could not be evaluated there.
    Overflow,
    /// The implied-volatility iteration did not converge within the cap, or
    /// hit a flat or unrepresentable residual or derivative.
    ConvergenceFailure,
}

/// A European vanilla option under the Black-Scholes-Merton model, with a
/// continuous dividend yield. All fields are fixed-point, scaled by `SCALE`.
///
/// `vol` and `observed_price` are independent optionals: the pricing and
/// sensitivity methods need `vol`, the implied-volatility solver needs
/// `observed_price`, and nothing stops both or neither being present.
#[derive(Clone, Copy, Debug, PartialEq, Eq, Structural)]
pub struct EuropeanOption {
    /// Observed market price of the option, for implied-volatility recovery.
    pub observed_price: Option<i64>,
    /// Strike price; positive.
    pub strike: i64,
    /// Continuously-compounded annualized risk-free rate.
    pub rate: i64,
    /// Annualized volatility; present when pricing forward.
    pub vol: Option<i64>,
    /// Continuously-compounded annualized dividend yield.
    pub dividend: i64,
    /// Time to maturity in years; positive.
    pub tau: i64,
    /// Current price of the underlying; positive.
    pub spot: i64,
}

/// The view of an executable optional fixed-point value.
pub open spec fn oview(o: Option<i64>) -> Option<int> {
    match o {
        Some(v) => Some(v as int),
        None => None,
    }
}

/// Optional product.
pub open spec fn omul(a: Option<int>, b: Option<int>) -> Option<int> {
    match (a, b) {
        (Some(x), Some(y)) => if fits(fmul_spec(x, y)) {
            Some(fmul_spec(x, y))
        } else {
            None
        },
        _ => None,
    }
}

/// Optional quotient.
pub open spec fn odiv(a: Option<int>, b: Option<int>) -> Option<int> {
    match (a, b) {
        (Some(x), Some(y)) => if y != 0 && fits(fdiv_spec(x, y)) {
            Some(fdiv_spec(x, y))
        } else {
            None
        },
        _ => None,
    }
}

/// Optional sum.
pub open spec fn oadd(a: Option<int>, b: Option<int>) -> Option<int> {
    match (a, b) {
        (Some(x), Some(y)) => if fits(x + y) {
            Some(x + y)
        } else {
            None
        },
        _ => None,
    }
}

/// Optional difference.
pub open spec fn osub(a: Option<int>, b: Option<int>) -> Option<int> {
    match (a, b) {
        (Some(x), Some(y)) => if fits(x - y) {
            Some(x - y)
        } else {
            None
        },
        _ => None,
    }
}

/// Optional negation.
pub open spec fn oneg(a: Option<int>) -> Option<int> {
    match a {
        Some(x) => if fits(-x) {
            Some(-x)
        } else {
            None
        },
        None => None,
    }
}

/// Optional halving; total on present values.
pub open spec fn ohalf(a: Option<int>) -> Option<int> {
    match a {
        Some(x) => Some(half_spec(x)),
        None => None,
    }
}

/// Optional square root; nothing for a negative value.
pub open spec fn osqrt(a: Option<int>) -> Option<int> {
    match a {
        Some(x) => if x >= 0 {
            Some(sqrt_spec(x))
        } else {
            None
        },
        None => None,
    }
}

/// Optional natural logarithm, through the named primitive.
pub open spec fn oln(a: Option<int>) -> Option<int> {
    match a {
        Some(x) => match ln_fp(x) {
            Some(l) => Some(l as int),
            None => None,
        },
        None => None,
    }
}

/// Optional exponential, through the named primitive.
pub open spec fn oexp(a: Option<int>) -> Option<int> {
    match a {
        Some(x) => match exp_fp(x) {
            Some(e) => Some(e as int),
            None => None,
        },
        None => None,
    }
}

/// Optional normal cumulative distribution; total on present values.
pub open spec fn ocdf(a: Option<int>) -> Option<int> {
    match a {
        Some(x) => Some(cdf_spec(x)),
        None => None,
    }
}

/// Optional normal density.
pub open spec fn opdf(a: Option<int>) -> Option<int> {
    match a {
        Some(x) => pdf_spec(x),
        None => None,
    }
}

/// Executable optional product.
fn emul(a: Option<i64>, b: Option<i64>) -> (r: Option<i64>)
    ensures
        oview(r) == omul(oview(a), oview(b)),
{
    match (a, b) {
        (Some(x), Some(y)) => fmul(x, y),
        _ => None,
    }
}

/// Executable optional quotient.
fn ediv(a: Option<i64>, b: Option<i64>) -> (r: Option<i64>)
    ensures
        oview(r) == odiv(oview(a), oview(b)),
{
    match (a, b) {
        (Some(x), Some(y)) => fdiv(x, y),
        _ => None,
    }
}

/// Executable optional sum.
fn eadd(a: Option<i64>, b: Option<i64>) -> (r: Option<i64>)
    ensures
        oview(r) == oadd(oview(a), oview(b)),
{
    match (a, b) {
        (Some(x), Some(y)) => fadd(x, y),
        _ => None,
    }
}

/// Executable optional difference.
fn esub(a: Option<i64>, b: Option<i64>) -> (r: Option<i64>)
    ensures
        oview(r) == osub(oview(a), oview(b)),
{
    match (a, b) {
        (Some(x), Some(y)) => fsub(x, y),
        _ => None,
    }
}

/// Executable optional negation.
fn eneg(a: Option<i64>) -> (r: Option<i64>)
    ensures
        oview(r) == oneg(oview(a)),
{
    match a {
        Some(x) => fneg(x),
        None => None,
    }
}

/// Executable optional halving.
fn ehalf(a: Option<i64>) -> (r: Option<i64>)
    ensures
        oview(r) == ohalf(oview(a)),
{
    match a {
        Some(x) => Some(fhalf(x)),
        None => None,
    }
}

/// Executable optional square root; a present result is never negative.
fn esqrt(a: Option<i64>) -> (r: Option<i64>)
    ensures
        oview(r) == osqrt(oview(a)),
        r matches Some(v) ==> v >= 0,
{
    match a {
        Some(x) => if x >= 0 {
            Some(fsqrt(x))
        } else {
            None
        },
        None => None,
    }
}

/// Executable optional natural logarithm.
fn eln(a: Option<i64>) -> (r: Option<i64>)
    ensures
        oview(r) == oln(oview(a)),
{
    match a {
        Some(x) => fln(x),
        None => None,
    }
}

/// Executable optional exponential; a present result is never negative.
fn eexp(a: Option<i64>) -> (r: Option<i64>)
    ensures
        oview(r) == oexp(oview(a)),
        r matches Some(v) ==> v >= 0,
{
    match a {
        Some(x) => fexp(x),
        None => None,
    }
}

/// Executable optional normal cumulative distribution.
fn ecdf(a: Option<i64>) -> (r: Option<i64>)
    ensures
        oview(r) == ocdf(oview(a)),
        r matches Some(v) ==> 0 <= v <= SCALE,
{
    match a {
        Some(x) => Some(norm_cdf(x)),
        None => None,
    }
}

/// Executable optional normal density; a present result is within `[0, 1]`.
fn epdf(a: Option<i64>) -> (r: Option<i64>)
    ensures
        oview(r) == opdf(oview(a)),
        r matches Some(v) ==> 0 <= v <= SCALE,
{
    match a {
        Some(x) => norm_pdf(x),
        None => None,
    }
}

/// `d1 = [ln(S/K) + (r - q + vol^2/2) tau] / (vol sqrt(tau))`, fixed-point;
/// nothing where a step leaves the representable range.
pub open spec fn d1_of(k: int, r: int, q: int, tau: int, s: int, v: int) -> Option<int> {
    let st = osqrt(Some(tau));
    let l = oln(odiv(Some(s), Some(k)));
    let hv = ohalf(omul(Some(v), Some(v)));
    let drift = oadd(osub(Some(r), Some(q)), hv);
    let num = oadd(l, omul(drift, Some(tau)));
    odiv(num, omul(Some(v), st))
}

/// `d2 = d1 - vol sqrt(tau)`, fixed-point.
pub open spec fn d2_of(k: int, r: int, q: int, tau: int, s: int, v: int) -> Option<int> {
    osub(d1_of(k, r, q, tau, s, v), omul(Some(v), osqrt(Some(tau))))
}

fn d1_core(k: i64, r: i64, q: i64, tau: i64, s: i64, v: i64) -> (res: Option<i64>)
    ensures
        oview(res) == d1_of(k as int, r as int, q as int, tau as int, s as int, v as int),
{
    let st = esqrt(Some(tau));
    let l = eln(ediv(Some(s), Some(k)));
    let hv = ehalf(emul(Some(v), Some(v)));
    let drift = eadd(esub(Some(r), Some(q)), hv);
    let num = eadd(l, emul(drift, Some(tau)));
    ediv(num, emul(Some(v), st))
}

fn d2_core(k: i64, r: i64, q: i64, tau: i64, s: i64, v: i64) -> (res: Option<i64>)
    ensures
        oview(res) == d2_of(k as int, r as int, q as int, tau as int, s as int, v as int),
{
    let d1 = d1_core(k, r, q, tau, s, v);
    esub(d1, emul(Some(v), esqrt(Some(tau))))
}


/// The discount factor `exp(-r tau)`, fixed-point.
pub open spec fn df_of(r: int, tau: int) -> Option<int> {
    oexp(oneg(omul(Some(r), Some(tau))))
}

fn df_core(r: i64, tau: i64) -> (res: Option<i64>)
    ensures
        oview(res) == df_of(r as int, tau as int),
        res matches Some(v) ==> v >= 0,
{
    eexp(eneg(emul(Some(r), Some(tau))))
}

/// `call = S Phi(d1) e^(-q tau) - K e^(-r tau) Phi(d2)`, fixed-point.
pub open spec fn call_value_of(k: int, r: int, q: int, tau: int, s: int, v: int) -> Option<int> {
    let d1 = d1_of(k, r, q, tau, s, v);
    let d2 = d2_of(k, r, q, tau, s, v);
    osub(
        omul(omul(Some(s), ocdf(d1)), df_of(q, tau)),
        omul(omul(Some(k), df_of(r, tau)), ocdf(d2)),
    )
}

fn call_value_core(k: i64, r: i64, q: i64, tau: i64, s: i64, v: i64) -> (res: Option<i64>)
    ensures
        oview(res) == call_value_of(k as int, r as int, q as int, tau as int, s as int, v as int),
{
    let d1 = d1_core(k, r, q, tau, s, v);
    let d2 = d2_core(k, r, q, tau, s, v);
    esub(
        emul(emul(Some(s), ecdf(d1)), df_core(q, tau)),
        emul(emul(Some(k), df_core(r, tau)), ecdf(d2)),
    )
}

/// `put = K e^(-r tau) Phi(-d2) - S Phi(-d1) e^(-q tau)`, fixed-point.
pub open spec fn put_value_of(k: int, r: int, q: int, tau: int, s: int, v: int) -> Option<int> {
    let d1 = d1_of(k, r, q, tau, s, v);
    let d2 = d2_of(k, r, q, tau, s, v);
    osub(
        omul(omul(Some(k), df_of(r, tau)), ocdf(oneg(d2))),
        omul(omul(Some(s), ocdf(oneg(d1))), df_of(q, tau)),
    )
}

fn put_value_core(k: i64, r: i64, q: i64, tau: i64, s: i64, v: i64) -> (res: Option<i64>)
    ensures
        oview(res) == put_value_of(k as int, r as int, q as int, tau as int, s as int, v as int),
{
    let d1 = d1_core(k, r, q, tau, s, v);
    let d2 = d2_core(k, r, q, tau, s, v);
    esub(
        emul(emul(Some(k), df_core(r, tau)), ecdf(eneg(d2))),
        emul(emul(Some(s), ecdf(eneg(d1))), df_core(q, tau)),
    )
}

/// `call theta = -S phi(d1) vol / (2 sqrt(tau)) - r K e^(-r tau) Phi(d2)`,
/// fixed-point.
pub open spec fn call_theta_of(k: int, r: int, q: int, tau: int, s: int, v: int) -> Option<int> {
    let d1 = d1_of(k, r, q, tau, s, v);
    let d2 = d2_of(k, r, q, tau, s, v);
    let decay = odiv(
        omul(omul(Some(s), opdf(d1)), Some(v)),
        omul(Some(TWO_FIX as int), osqrt(Some(tau))),
    );
    osub(oneg(decay), omul(omul(omul(Some(r), Some(k)), df_of(r, tau)), ocdf(d2)))
}

fn call_theta_core(k: i64, r: i64, q: i64, tau: i64, s: i64, v: i64) -> (res: Option<i64>)
    ensures
        oview(res) == call_theta_of(k as int, r as int, q as int, tau as int, s as int, v as int),
{
    let d1 = d1_core(k, r, q, tau, s, v);
    let d2 = d2_core(k, r, q, tau, s, v);
    let decay = ediv(
        emul(emul(Some(s), epdf(d1)), Some(v)),
        emul(Some(TWO_FIX), esqrt(Some(tau))),
    );
    esub(eneg(decay), emul(emul(emul(Some(r), Some(k)), df_core(r, tau)), ecdf(d2)))
}

/// `put theta = call theta + r K e^(-r tau)`, fixed-point: the put-call
/// theta relation of the model, by construction.
pub open spec fn put_theta_of(k: int, r: int, q: int, tau: int, s: int, v: int) -> Option<int> {
    oadd(call_theta_of(k, r, q, tau, s, v), omul(omul(Some(r), Some(k)), df_of(r, tau)))
}

fn put_theta_core(k: i64, r: i64, q: i64, tau: i64, s: i64, v: i64) -> (res: Option<i64>)
    ensures
        oview(res) == put_theta_of(k as int, r as int, q as int, tau as int, s as int, v as int),
{
    let ct = call_theta_core(k, r, q, tau, s, v);
    eadd(ct, emul(emul(Some(r), Some(k)), df_core(r, tau)))
}

/// `gamma = e^(-d1^2/2) / (S vol sqrt(2 pi tau))`, fixed-point.
pub open spec fn gamma_of(k: int, r: int, q: int, tau: int, s: int, v: int) -> Option<int> {
    let d1 = d1_of(k, r, q, tau, s, v);
    odiv(
        oexp(oneg(ohalf(omul(d1, d1)))),
        omul(omul(Some(s), Some(v)), osqrt(omul(Some(TWO_PI_FIX as int), Some(tau)))),
    )
}

fn gamma_core(k: i64, r: i64, q: i64, tau: i64, s: i64, v: i64) -> (res: Option<i64>)
    requires
        s > 0,
        v > 0,
    ensures
        oview(res) == gamma_of(k as int, r as int, q as int, tau as int, s as int, v as int),
        res matches Some(g) ==> g >= 0,
{
    let d1 = d1_core(k, r, q, tau, s, v);
    let e = eexp(eneg(ehalf(emul(d1, d1))));
    let den = emul(emul(Some(s), Some(v)), esqrt(emul(Some(TWO_PI_FIX), Some(tau))));
    let res = ediv(e, den);
    proof {
        if res matches Some(g) {
            let ev = e->0 as int;
            let dv = den->0 as int;
            crate::fixed::lemma_fmul_nonneg(s as int, v as int);
            crate::fixed::lemma_fmul_nonneg(fmul_spec(s as int, v as int), dv);
            if dv > 0 {
                crate::fixed::lemma_fdiv_nonneg(ev, dv);
            }
        }
    }
    res
}

/// `vega = S e^(-q tau) sqrt(tau) phi(d1)`, fixed-point.
pub open spec fn vega_of(k: int, r: int, q: int, tau: int, s: int, v: int) -> Option<int> {
    let d1 = d1_of(k, r, q, tau, s, v);
    omul(omul(omul(Some(s), df_of(q, tau)), osqrt(Some(tau))), opdf(d1))
}

fn vega_core(k: i64, r: i64, q: i64, tau: i64, s: i64, v: i64) -> (res: Option<i64>)
    requires
        s > 0,
    ensures
        oview(res) == vega_of(k as int, r as int, q as int, tau as int, s as int, v as int),
        res matches Some(g) ==> g >= 0,
{
    let d1 = d1_core(k, r, q, tau, s, v);
    let dq = df_core(q, tau);
    let a = emul(Some(s), dq);
    let st = esqrt(Some(tau));
    let b = emul(a, st);
    let pd = epdf(d1);
    let res = emul(b, pd);
    proof {
        if res is Some {
            crate::fixed::lemma_fmul_nonneg(s as int, dq->0 as int);
            crate::fixed::lemma_fmul_nonneg(a->0 as int, st->0 as int);
            crate::fixed::lemma_fmul_nonneg(b->0 as int, pd->0 as int);
        }
    }
    res
}

/// `call rho = K sqrt(tau) phi(d2)`, fixed-point: the simplified rho the
/// model exposes, without the `tau e^(-r tau)` discounting of the textbook
/// expression.
pub open spec fn call_rho_of(k: int, r: int, q: int, tau: int, s: int, v: int) -> Option<int> {
    let d2 = d2_of(k, r, q, tau, s, v);
    omul(omul(Some(k), osqrt(Some(tau))), opdf(d2))
}

fn call_rho_core(k: i64, r: i64, q: i64, tau: i64, s: i64, v: i64) -> (res: Option<i64>)
    ensures
        oview(res) == call_rho_of(k as int, r as int, q as int, tau as int, s as int, v as int),
{
    let d2 = d2_core(k, r, q, tau, s, v);
    emul(emul(Some(k), esqrt(Some(tau))), epdf(d2))
}

/// `put rho = -K sqrt(tau) phi(-d2)`, fixed-point, mirroring the same
/// simplified convention.
pub open spec fn put_rho_of(k: int, r: int, q: int, tau: int, s: int, v: int) -> Option<int> {
    let d2 = d2_of(k, r, q, tau, s, v);
    oneg(omul(omul(Some(k), osqrt(Some(tau))), opdf(oneg(d2))))
}

fn put_rho_core(k: i64, r: i64, q: i64, tau: i64, s: i64, v: i64) -> (res: Option<i64>)
    ensures
        oview(res) == put_rho_of(k as int, r as int, q as int, tau as int, s as int, v as int),
{
    let d2 = d2_core(k, r, q, tau, s, v);
    eneg(emul(emul(Some(k), esqrt(Some(tau))), epdf(eneg(d2))))
}


/// The Brenner-Subrahmanyam initial guess for the implied volatility:
/// `sqrt(pi/tau) (2 V - S + e^(-r tau) K) / (2 S)`, fixed-point.
pub open spec fn guess_of(k: int, r: int, tau: int, s: int, vobs: int) -> Option<int> {
    let root = osqrt(odiv(Some(PI_FIX as int), Some(tau)));
    let num = oadd(osub(oadd(Some(vobs), Some(vobs)), Some(s)), omul(df_of(r, tau), Some(k)));
    odiv(omul(root, num), oadd(Some(s), Some(s)))
}

fn guess_core(k: i64, r: i64, tau: i64, s: i64, vobs: i64) -> (res: Option<i64>)
    ensures
        oview(res) == guess_of(k as int, r as int, tau as int, s as int, vobs as int),
{
    let root = esqrt(ediv(Some(PI_FIX), Some(tau)));
    let num = eadd(esub(eadd(Some(vobs), Some(vobs)), Some(s)), emul(df_core(r, tau), Some(k)));
    ediv(emul(root, num), eadd(Some(s), Some(s)))
}

/// One Newton-Raphson step of the implied-volatility iteration: from a trial
/// volatility `sigma` to `sigma - f(sigma)/f\'(sigma)`, with the residual
/// `f(sigma) = V - call(sigma)` and the closed-form derivative
/// `f\'(sigma) = -S sqrt(tau/(2 pi)) e^(-d1(sigma)^2/2)`. Nothing where the
/// derivative is flat or a value is unrepresentable.
pub open spec fn newton_next_of(
    k: int,
    r: int,
    q: int,
    tau: int,
    s: int,
    vobs: int,
    sigma: int,
) -> Option<int> {
    let resid = osub(Some(vobs), call_value_of(k, r, q, tau, s, sigma));
    let d1 = d1_of(k, r, q, tau, s, sigma);
    let deriv = oneg(
        omul(
            omul(Some(s), osqrt(odiv(Some(tau), Some(TWO_PI_FIX as int)))),
            oexp(oneg(ohalf(omul(d1, d1)))),
        ),
    );
    osub(Some(sigma), odiv(resid, deriv))
}

fn newton_next_core(k: i64, r: i64, q: i64, tau: i64, s: i64, vobs: i64, sigma: i64) -> (res:
    Option<i64>)
    ensures
        oview(res) == newton_next_of(
            k as int,
            r as int,
            q as int,
            tau as int,
            s as int,
            vobs as int,
            sigma as int,
        ),
{
    let resid = esub(Some(vobs), call_value_core(k, r, q, tau, s, sigma));
    let d1 = d1_core(k, r, q, tau, s, sigma);
    let deriv = eneg(
        emul(
            emul(Some(s), esqrt(ediv(Some(tau), Some(TWO_PI_FIX)))),
            eexp(eneg(ehalf(emul(d1, d1)))),
        ),
    );
    esub(Some(sigma), ediv(resid, deriv))
}

/// The Newton-Raphson iteration from a trial volatility with the given fuel:
/// the first iterate whose step is smaller than the tolerance, or nothing if
/// a step fails or the fuel runs out.
pub open spec fn newton_iter_of(
    k: int,
    r: int,
    q: int,
    tau: int,
    s: int,
    vobs: int,
    sigma: int,
    fuel: nat,
) -> Option<int>
    decreases fuel,
{
    if fuel == 0 {
        None
    } else {
        match newton_next_of(k, r, q, tau, s, vobs, sigma) {
            Some(nx) => if nx - sigma < IV_TOLERANCE && sigma - nx < IV_TOLERANCE {
                Some(nx)
            } else {
                newton_iter_of(k, r, q, tau, s, vobs, nx, (fuel - 1) as nat)
            },
            None => None,
        }
    }
}

/// The implied volatility: the Newton-Raphson iteration seeded with the
/// Brenner-Subrahmanyam guess, within the iteration cap.
pub open spec fn implied_vol_of(k: int, r: int, q: int, tau: int, s: int, vobs: int) -> Option<
    int,
> {
    match guess_of(k, r, tau, s, vobs) {
        Some(g) => newton_iter_of(k, r, q, tau, s, vobs, g, IV_MAX_ITER as nat),
        None => None,
    }
}

impl EuropeanOption {
    /// The parameters every formula needs are positive.
    pub open spec fn domain_ok(self) -> bool {
        self.strike > 0 && self.spot > 0 && self.tau > 0
    }

    /// What a method that needs `vol` returns, given the fixed-point value it
    /// computes: the typed error when `vol` is absent or a parameter is out
    /// of domain, the value otherwise, and `Overflow` where the evaluation
    /// left the representable range.
    pub open spec fn vol_result(self, value: Option<int>) -> Result<i64, PriceError> {
        if self.vol is None {
            Err(PriceError::MissingParameter)
        } else if !(self.domain_ok() && self.vol->0 > 0) {
            Err(PriceError::InvalidDomain)
        } else {
            match value {
                Some(x) => Ok(x as i64),
                None => Err(PriceError::Overflow),
            }
        }
    }

    /// The intermediate `d1` of the model.
    pub open spec fn d1_spec(self) -> Result<i64, PriceError> {
        self.vol_result(
            d1_of(
                self.strike as int,
                self.rate as int,
                self.dividend as int,
                self.tau as int,
                self.spot as int,
                self.vol->0 as int,
            ),
        )
    }

    /// `d1 = [ln(S/K) + (r - q + vol^2/2) tau] / (vol sqrt(tau))`.
    pub fn d1(&self) -> (r: Result<i64, PriceError>)
        ensures
            r == self.d1_spec(),
    {
        let v = match self.vol {
            Some(v) => v,
            None => {
                return Err(PriceError::MissingParameter);
            },
        };
        if !(self.strike > 0 && self.spot > 0 && self.tau > 0 && v > 0) {
            return Err(PriceError::InvalidDomain);
        }
        match d1_core(self.strike, self.rate, self.dividend, self.tau, self.spot, v) {
            Some(x) => Ok(x),
            None => Err(PriceError::Overflow),
        }
    }

    /// The intermediate `d2` of the model.
    pub open spec fn d2_spec(self) -> Result<i64, PriceError> {
        self.vol_result(
            d2_of(
                self.strike as int,
                self.rate as int,
                self.dividend as int,
                self.tau as int,
                self.spot as int,
                self.vol->0 as int,
            ),
        )
    }

    /// `d2 = d1 - vol sqrt(tau)`.
    pub fn d2(&self) -> (r: Result<i64, PriceError>)
        ensures
            r == self.d2_spec(),
    {
        let v = match self.vol {
            Some(v) => v,
            None => {
                return Err(PriceError::MissingParameter);
            },
        };
        if !(self.strike > 0 && self.spot > 0 && self.tau > 0 && v > 0) {
            return Err(PriceError::InvalidDomain);
        }
        match d2_core(self.strike, self.rate, self.dividend, self.tau, self.spot, v) {
            Some(x) => Ok(x),
            None => Err(PriceError::Overflow),
        }
    }

    /// The call delta of the model.
    pub open spec fn delta_spec(self) -> Result<i64, PriceError> {
        self.vol_result(
            ocdf(
                d1_of(
                    self.strike as int,
                    self.rate as int,
                    self.dividend as int,
                    self.tau as int,
                    self.spot as int,
                    self.vol->0 as int,
                ),
            ),
        )
    }

    /// The sensitivity of the call value to the spot price: `Phi(d1)`.
    /// A returned delta always lies within `[0, 1]`.
    pub fn delta(&self) -> (r: Result<i64, PriceError>)
        ensures
            r == self.delta_spec(),
            r matches Ok(d) ==> 0 <= d <= SCALE,
    {
        let v = match self.vol {
            Some(v) => v,
            None => {
                return Err(PriceError::MissingParameter);
            },
        };
        if !(self.strike > 0 && self.spot > 0 && self.tau > 0 && v > 0) {
            return Err(PriceError::InvalidDomain);
        }
        match ecdf(d1_core(self.strike, self.rate, self.dividend, self.tau, self.spot, v)) {
            Some(x) => Ok(x),
            None => Err(PriceError::Overflow),
        }
    }

    /// The fixed-point value of `call_value`, as a result.
    pub open spec fn call_value_spec(self) -> Result<i64, PriceError> {
        self.vol_result(
            call_value_of(
                self.strike as int,
                self.rate as int,
                self.dividend as int,
                self.tau as int,
                self.spot as int,
                self.vol->0 as int,
            ),
        )
    }

    /// The theoretical call price: `S Phi(d1) e^(-q tau) - K e^(-r tau) Phi(d2)`.
    pub fn call_value(&self) -> (r: Result<i64, PriceError>)
        ensures
            r == self.call_value_spec(),
    {
        let v = match self.vol {
            Some(v) => v,
            None => {
                return Err(PriceError::MissingParameter);
            },
        };
        if !(self.strike > 0 && self.spot > 0 && self.tau > 0 && v > 0) {
            return Err(PriceError::InvalidDomain);
        }
        match call_value_core(self.strike, self.rate, self.dividend, self.tau, self.spot, v) {
            Some(x) => Ok(x),
            None => Err(PriceError::Overflow),
        }
    }

    /// The fixed-point value of `put_value`, as a result.
    pub open spec fn put_value_spec(self) -> Result<i64, PriceError> {
        self.vol_result(
            put_value_of(
                self.strike as int,
                self.rate as int,
                self.dividend as int,
                self.tau as int,
                self.spot as int,
                self.vol->0 as int,
            ),
        )
    }

    /// The theoretical put price: `K e^(-r tau) Phi(-d2) - S Phi(-d1) e^(-q tau)`.
    pub fn put_value(&self) -> (r: Result<i64, PriceError>)
        ensures
            r == self.put_value_spec(),
    {
        let v = match self.vol {
            Some(v) => v,
            None => {
                return Err(PriceError::MissingParameter);
            },
        };
        if !(self.strike > 0 && self.spot > 0 && self.tau > 0 && v > 0) {
            return Err(PriceError::InvalidDomain);
        }
        match put_value_core(self.strike, self.rate, self.dividend, self.tau, self.spot, v) {
            Some(x) => Ok(x),
            None => Err(PriceError::Overflow),
        }
    }

    /// The fixed-point value of `call_theta`, as a result.
    pub open spec fn call_theta_spec(self) -> Result<i64, PriceError> {
        self.vol_result(
            call_theta_of(
                self.strike as int,
                self.rate as int,
                self.dividend as int,
                self.tau as int,
                self.spot as int,
                self.vol->0 as int,
            ),
        )
    }

    /// The call theta, per year: `-S phi(d1) vol / (2 sqrt(tau)) - r K e^(-r tau) Phi(d2)`.
    pub fn call_theta(&self) -> (r: Result<i64, PriceError>)
        ensures
            r == self.call_theta_spec(),
    {
        let v = match self.vol {
            Some(v) => v,
            None => {
                return Err(PriceError::MissingParameter);
            },
        };
        if !(self.strike > 0 && self.spot > 0 && self.tau > 0 && v > 0) {
            return Err(PriceError::InvalidDomain);
        }
        match call_theta_core(self.strike, self.rate, self.dividend, self.tau, self.spot, v) {
            Some(x) => Ok(x),
            None => Err(PriceError::Overflow),
        }
    }

    /// The fixed-point value of `put_theta`, as a result.
    pub open spec fn put_theta_spec(self) -> Result<i64, PriceError> {
        self.vol_result(
            put_theta_of(
                self.strike as int,
                self.rate as int,
                self.dividend as int,
                self.tau as int,
                self.spot as int,
                self.vol->0 as int,
            ),
        )
    }

    /// The put theta, per year: `call_theta + r K e^(-r tau)`.
    pub fn put_theta(&self) -> (r: Result<i64, PriceError>)
        ensures
            r == self.put_theta_spec(),
    {
        let v = match self.vol {
            Some(v) => v,
            None => {
                return Err(PriceError::MissingParameter);
            },
        };
        if !(self.strike > 0 && self.spot > 0 && self.tau > 0 && v > 0) {
            return Err(PriceError::InvalidDomain);
        }
        match put_theta_core(self.strike, self.rate, self.dividend, self.tau, self.spot, v) {
            Some(x) => Ok(x),
            None => Err(PriceError::Overflow),
        }
    }

    /// The fixed-point value of `gamma`, as a result.
    pub open spec fn gamma_spec(self) -> Result<i64, PriceError> {
        self.vol_result(
            gamma_of(
                self.strike as int,
                self.rate as int,
                self.dividend as int,
                self.tau as int,
                self.spot as int,
                self.vol->0 as int,
            ),
        )
    }

    /// The gamma, identical for calls and puts:
    /// `e^(-d1^2/2) / (S vol sqrt(2 pi tau))`. A returned gamma is never
    /// negative.
    pub fn gamma(&self) -> (r: Result<i64, PriceError>)
        ensures
            r == self.gamma_spec(),
            r matches Ok(g) ==> g >= 0,
    {
        let v = match self.vol {
            Some(v) => v,
            None => {
                return Err(PriceError::MissingParameter);
            },
        };
        if !(self.strike > 0 && self.spot > 0 && self.tau > 0 && v > 0) {
            return Err(PriceError::InvalidDomain);
        }
        match gamma_core(self.strike, self.rate, self.dividend, self.tau, self.spot, v) {
            Some(x) => Ok(x),
            None => Err(PriceError::Overflow),
        }
    }

    /// The fixed-point value of `vega`, as a result.
    pub open spec fn vega_spec(self) -> Result<i64, PriceError> {
        self.vol_result(
            vega_of(
                self.strike as int,
                self.rate as int,
                self.dividend as int,
                self.tau as int,
                self.spot as int,
                self.vol->0 as int,
            ),
        )
    }

    /// The vega, identical for calls and puts:
    /// `S e^(-q tau) sqrt(tau) phi(d1)`. A returned vega is never negative.
    pub fn vega(&self) -> (r: Result<i64, PriceError>)
        ensures
            r == self.vega_spec(),
            r matches Ok(g) ==> g >= 0,
    {
        let v = match self.vol {
            Some(v) => v,
            None => {
                return Err(PriceError::MissingParameter);
            },
        };
        if !(self.strike > 0 && self.spot > 0 && self.tau > 0 && v > 0) {
            return Err(PriceError::InvalidDomain);
        }
        match vega_core(self.strike, self.rate, self.dividend, self.tau, self.spot, v) {
            Some(x) => Ok(x),
            None => Err(PriceError::Overflow),
        }
    }

    /// The fixed-point value of `call_rho`, as a result.
    pub open spec fn call_rho_spec(self) -> Result<i64, PriceError> {
        self.vol_result(
            call_rho_of(
                self.strike as int,
                self.rate as int,
                self.dividend as int,
                self.tau as int,
                self.spot as int,
                self.vol->0 as int,
            ),
        )
    }

    /// The simplified call rho the model exposes: `K sqrt(tau) phi(d2)`.
    pub fn call_rho(&self) -> (r: Result<i64, PriceError>)
        ensures
            r == self.call_rho_spec(),
    {
        let v = match self.vol {
            Some(v) => v,
            None => {
                return Err(PriceError::MissingParameter);
            },
        };
        if !(self.strike > 0 && self.spot > 0 && self.tau > 0 && v > 0) {
            return Err(PriceError::InvalidDomain);
        }
        match call_rho_core(self.strike, self.rate, self.dividend, self.tau, self.spot, v) {
            Some(x) => Ok(x),
            None => Err(PriceError::Overflow),
        }
    }

    /// The fixed-point value of `put_rho`, as a result.
    pub open spec fn put_rho_spec(self) -> Result<i64, PriceError> {
        self.vol_result(
            put_rho_of(
                self.strike as int,
                self.rate as int,
                self.dividend as int,
                self.tau as int,
                self.spot as int,
                self.vol->0 as int,
            ),
        )
    }

    /// The simplified put rho the model exposes: `-K sqrt(tau) phi(-d2)`.
    pub fn put_rho(&self) -> (r: Result<i64, PriceError>)
        ensures
            r == self.put_rho_spec(),
    {
        let v = match self.vol {
            Some(v) => v,
            None => {
                return Err(PriceError::MissingParameter);
            },
        };
        if !(self.strike > 0 && self.spot > 0 && self.tau > 0 && v > 0) {
            return Err(PriceError::InvalidDomain);
        }
        match put_rho_core(self.strike, self.rate, self.dividend, self.tau, self.spot, v) {
            Some(x) => Ok(x),
            None => Err(PriceError::Overflow),
        }
    }

    /// The fixed-point implied volatility, as a result.
    pub open spec fn implied_vol_spec(self) -> Result<i64, PriceError> {
        if self.observed_price is None {
            Err(PriceError::MissingParameter)
        } else if !self.domain_ok() {
            Err(PriceError::InvalidDomain)
        } else {
            match implied_vol_of(
                self.strike as int,
                self.rate as int,
                self.dividend as int,
                self.tau as int,
                self.spot as int,
                self.observed_price->0 as int,
            ) {
                Some(x) => Ok(x as i64),
                None => Err(PriceError::ConvergenceFailure),
            }
        }
    }

    /// The volatility at which the model call price meets `observed_price`,
    /// recovered by Newton-Raphson iteration with the Brenner-Subrahmanyam
    /// guess as the starting point; the closed-form derivative drives each
    /// step, and iteration stops at the first step smaller than
    /// `IV_TOLERANCE` or fails after `IV_MAX_ITER` steps.
    pub fn implied_vol(&self) -> (r: Result<i64, PriceError>)
        ensures
            r == self.implied_vol_spec(),
    {
        let vobs = match self.observed_price {
            Some(v) => v,
            None => {
                return Err(PriceError::MissingParameter);
            },
        };
        if !(self.strike > 0 && self.spot > 0 && self.tau > 0) {
            return Err(PriceError::InvalidDomain);
        }
        let g = match guess_core(self.strike, self.rate, self.tau, self.spot, vobs) {
            Some(g) => g,
            None => {
                return Err(PriceError::ConvergenceFailure);
            },
        };
        let mut sigma: i64 = g;
        let mut i: u64 = 0;
        while i < IV_MAX_ITER
            invariant
                0 <= i <= IV_MAX_ITER,
                self.observed_price == Some(vobs),
                self.strike > 0 && self.spot > 0 && self.tau > 0,
                newton_iter_of(
                    self.strike as int,
                    self.rate as int,
                    self.dividend as int,
                    self.tau as int,
                    self.spot as int,
                    vobs as int,
                    sigma as int,
                    (IV_MAX_ITER - i) as nat,
                ) == implied_vol_of(
                    self.strike as int,
                    self.rate as int,
                    self.dividend as int,
                    self.tau as int,
                    self.spot as int,
                    vobs as int,
                ),
            decreases IV_MAX_ITER - i,
        {
            let nx = match newton_next_core(
                self.strike,
                self.rate,
                self.dividend,
                self.tau,
                self.spot,
                vobs,
                sigma,
            ) {
                Some(nx) => nx,
                None => {
                    proof {
                        assert(newton_iter_of(
                            self.strike as int,
                        self.rate as int,
                        self.dividend as int,
                        self.tau as int,
                        self.spot as int,
                        vobs as int,
                            sigma as int,
                            (IV_MAX_ITER - i) as nat,
                        ) == None::<int>);
                    }
                    return Err(PriceError::ConvergenceFailure);
                },
            };
            let diff: i128 = (nx as i128) - (sigma as i128);
            if -(IV_TOLERANCE as i128) < diff && diff < (IV_TOLERANCE as i128) {
                proof {
                    assert(newton_iter_of(
                        self.strike as int,
                        self.rate as int,
                        self.dividend as int,
                        self.tau as int,
                        self.spot as int,
                        vobs as int,
                        sigma as int,
                        (IV_MAX_ITER - i) as nat,
                    ) == Some(nx as int));
                }
                return Ok(nx);
            }
            proof {
                assert(newton_iter_of(
                    self.strike as int,
                        self.rate as int,
                        self.dividend as int,
                        self.tau as int,
                        self.spot as int,
                        vobs as int,
                    nx as int,
                    (IV_MAX_ITER - (i + 1)) as nat,
                ) == newton_iter_of(
                    self.strike as int,
                        self.rate as int,
                        self.dividend as int,
                        self.tau as int,
                        self.spot as int,
                        vobs as int,
                    sigma as int,
                    (IV_MAX_ITER - i) as nat,
                ));
            }
            sigma = nx;
            i = i + 1;
        }
        Err(PriceError::ConvergenceFailure)
    }
}

} // verus!
