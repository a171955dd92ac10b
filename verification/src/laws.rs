//! Model laws, proved of the pricing formulas.

use vstd::prelude::*;
use crate::fixed::SCALE;
use crate::fixed::fmul_spec;
use crate::fixed::lemma_fmul_nonneg;
use crate::fixed::lemma_fmul_one;
use crate::fixed::lemma_fmul_zero;
use crate::normal::cdf_spec;
use crate::normal::CDF_SAT;
use crate::normal::lemma_cdf_bounds;
use crate::normal::lemma_cdf_parity;
use crate::pricer::call_theta_of;
use crate::pricer::put_theta_of;
use crate::pricer::call_value_of;
use crate::pricer::put_value_of;
use crate::pricer::d1_of;
use crate::pricer::d2_of;
use crate::pricer::df_of;
use crate::pricer::omul;
use vstd::arithmetic::div_mod::lemma_fundamental_div_mod;
use vstd::arithmetic::div_mod::lemma_fundamental_div_mod_converse_div;
use vstd::arithmetic::div_mod::lemma_mod_division_less_than_divisor;
use vstd::arithmetic::div_mod::lemma_div_is_ordered;
use vstd::arithmetic::div_mod::lemma_div_pos_is_pos;
use vstd::arithmetic::div_mod::lemma_div_multiples_vanish;
use vstd::arithmetic::mul::lemma_mul_nonnegative;

verus! {

/// The put theta exceeds the call theta by exactly the fixed-point
/// rate-discount term `r K e^(-r tau)`: the put-call theta relation of the
/// model holds by construction wherever the put theta is defined.
pub proof fn theta_parity(k: int, r: int, q: int, tau: int, s: int, v: int)
    requires
        put_theta_of(k, r, q, tau, s, v) is Some,
    ensures
        call_theta_of(k, r, q, tau, s, v) is Some,
        omul(omul(Some(r), Some(k)), df_of(r, tau)) is Some,
        put_theta_of(k, r, q, tau, s, v)->0 == call_theta_of(k, r, q, tau, s, v)->0 + omul(
            omul(Some(r), Some(k)),
            df_of(r, tau),
        )->0,
{
}

/// For non-negative numerators, integer division distributes over a sum up
/// to one truncated unit.
proof fn lemma_div_sum(x: int, y: int, d: int)
    requires
        x >= 0,
        y >= 0,
        d > 0,
    ensures
        x / d + y / d <= (x + y) / d <= x / d + y / d + 1,
{
    lemma_fundamental_div_mod(x, d);
    lemma_fundamental_div_mod(y, d);
    lemma_mod_division_less_than_divisor(x, d);
    lemma_mod_division_less_than_divisor(y, d);
    let qx = x / d;
    let rx = x % d;
    let qy = y / d;
    let ry = y % d;
    if rx + ry < d {
        assert(x + y == (qx + qy) * d + (rx + ry)) by (nonlinear_arith)
            requires
                x == d * qx + rx,
                y == d * qy + ry,
        ;
        lemma_fundamental_div_mod_converse_div(x + y, d, qx + qy, rx + ry);
    } else {
        assert(x + y == (qx + qy + 1) * d + (rx + ry - d)) by (nonlinear_arith)
            requires
                x == d * qx + rx,
                y == d * qy + ry,
        ;
        lemma_fundamental_div_mod_converse_div(x + y, d, qx + qy + 1, rx + ry - d);
    }
}

/// Scaling a non-negative value by two complementary weights gives back the
/// value, up to its last fixed-point digit and the truncated units.
proof fn lemma_complement_split(a: int, p: int, pn: int)
    requires
        a >= 0,
        0 <= p,
        0 <= pn,
        SCALE - 1 <= p + pn <= SCALE,
    ensures
        fmul_spec(a, p) + fmul_spec(a, pn) <= a,
        fmul_spec(a, p) + fmul_spec(a, pn) >= a - a / (SCALE as int) - 2,
{
    let d = SCALE as int;
    lemma_mul_nonnegative(a, p);
    lemma_mul_nonnegative(a, pn);
    assert(fmul_spec(a, p) == (a * p) / d);
    assert(fmul_spec(a, pn) == (a * pn) / d);
    lemma_div_sum(a * p, a * pn, d);
    let w = p + pn;
    assert(a * p + a * pn == a * (p + pn)) by (nonlinear_arith);
    assert(a * p + a * pn == a * w);
    assert(a * w <= a * d) by (nonlinear_arith)
        requires
            w <= d,
            a >= 0,
    ;
    lemma_div_is_ordered(a * w, a * d, d);
    lemma_div_multiples_vanish(a, d);
    assert(a * d == d * a) by (nonlinear_arith);
    assert((a * w) / d <= a);
    lemma_fundamental_div_mod(a, d);
    lemma_mod_division_less_than_divisor(a, d);
    assert(a * w >= d * (a - a / d - 1)) by (nonlinear_arith)
        requires
            w >= d - 1,
            a >= 0,
            a == d * (a / d) + a % d,
            a % d < d,
    ;
    lemma_div_is_ordered(d * (a - a / d - 1), a * w, d);
    lemma_div_multiples_vanish(a - a / d - 1, d);
    assert((a * w) / d >= a - a / d - 1);
}

/// Put-call parity: wherever both values are defined and the discount
/// factors lie in `[0, 1]`, the fixed-point put value equals
/// `call - S e^(-q tau) + K e^(-r tau)` up to a few units in the last digit
/// (a relative error on the order of the fixed-point precision).
pub proof fn put_call_parity(k: int, r: int, q: int, tau: int, s: int, v: int)
    requires
        k > 0,
        s > 0,
        call_value_of(k, r, q, tau, s, v) is Some,
        put_value_of(k, r, q, tau, s, v) is Some,
        0 <= df_of(q, tau)->0 <= SCALE,
        0 <= df_of(r, tau)->0 <= SCALE,
    ensures
        put_value_of(k, r, q, tau, s, v)->0 - (call_value_of(k, r, q, tau, s, v)->0 - fmul_spec(
            s,
            df_of(q, tau)->0,
        ) + fmul_spec(k, df_of(r, tau)->0)) <= s / (SCALE as int) + 3,
        put_value_of(k, r, q, tau, s, v)->0 - (call_value_of(k, r, q, tau, s, v)->0 - fmul_spec(
            s,
            df_of(q, tau)->0,
        ) + fmul_spec(k, df_of(r, tau)->0)) >= -(k / (SCALE as int) + 3),
{
    let d = SCALE as int;
    let d1v = d1_of(k, r, q, tau, s, v)->0;
    let d2v = d2_of(k, r, q, tau, s, v)->0;
    let eqv = df_of(q, tau)->0;
    let erv = df_of(r, tau)->0;
    let p1 = cdf_spec(d1v);
    let p2 = cdf_spec(d2v);
    let p1n = cdf_spec(-d1v);
    let p2n = cdf_spec(-d2v);
    lemma_cdf_bounds(d1v);
    lemma_cdf_bounds(d2v);
    lemma_cdf_bounds(-d1v);
    lemma_cdf_bounds(-d2v);
    lemma_cdf_parity(d1v);
    lemma_cdf_parity(d2v);
    let u1 = fmul_spec(s, p1);
    let un = fmul_spec(s, p1n);
    let c = fmul_spec(k, erv);
    let cv = call_value_of(k, r, q, tau, s, v)->0;
    let pv = put_value_of(k, r, q, tau, s, v)->0;
    let a1 = fmul_spec(u1, eqv);
    let b1 = fmul_spec(c, p2);
    let c1 = fmul_spec(c, p2n);
    let e1 = fmul_spec(un, eqv);
    assert(cv == a1 - b1);
    assert(pv == c1 - e1);
    let sq = fmul_spec(s, eqv);
    // the strike side: the two discounted tails sum back to the discounted
    // strike, up to truncation
    lemma_fmul_nonneg(k, erv);
    lemma_complement_split(c, p2, p2n);
    // the spot side, in two stages: the weights, then the discounting
    lemma_complement_split(s, p1, p1n);
    lemma_fmul_nonneg(s, p1);
    lemma_fmul_nonneg(s, p1n);
    lemma_mul_nonnegative(u1, eqv);
    lemma_mul_nonnegative(un, eqv);
    lemma_mul_nonnegative(s, eqv);
    assert(a1 == (u1 * eqv) / d);
    assert(e1 == (un * eqv) / d);
    assert(sq == (s * eqv) / d);
    lemma_div_sum(u1 * eqv, un * eqv, d);
    assert(u1 * eqv + un * eqv == (u1 + un) * eqv) by (nonlinear_arith);
    assert((u1 + un) * eqv <= s * eqv) by (nonlinear_arith)
        requires
            u1 + un <= s,
            eqv >= 0,
    ;
    lemma_div_is_ordered((u1 + un) * eqv, s * eqv, d);
    assert(a1 + e1 <= sq);
    lemma_div_pos_is_pos(s, d);
    let m = s / d + 2;
    assert((u1 + un) * eqv >= s * eqv - m * d) by (nonlinear_arith)
        requires
            u1 + un >= s - m,
            0 <= eqv <= d,
            m >= 0,
            s >= 0,
    ;
    lemma_div_is_ordered(s * eqv - m * d, (u1 + un) * eqv, d);
    lemma_fundamental_div_mod(s * eqv, d);
    lemma_mod_division_less_than_divisor(s * eqv, d);
    assert(s * eqv - m * d == (sq - m) * d + (s * eqv) % d) by (nonlinear_arith)
        requires
            s * eqv == d * sq + (s * eqv) % d,
    ;
    lemma_fundamental_div_mod_converse_div(s * eqv - m * d, d, sq - m, (s * eqv) % d);
    assert(a1 + e1 >= sq - m - 1);
    // the strike magnitude bounds the strike-side truncation
    assert(k * erv <= k * d) by (nonlinear_arith)
        requires
            erv <= d,
            k >= 0,
    ;
    lemma_div_is_ordered(k * erv, k * d, d);
    lemma_div_multiples_vanish(k, d);
    assert(k * d == d * k) by (nonlinear_arith);
    assert(c <= k);
    lemma_div_is_ordered(c, k, d);
    lemma_div_pos_is_pos(c, d);
}

/// Deep in the money — both tails saturated, as happens near expiry with the
/// spot above the strike — the call value is exactly the discounted spot
/// less the discounted strike, and the put value is exactly zero.
pub proof fn boundary_in_the_money(k: int, r: int, q: int, tau: int, s: int, v: int)
    requires
        call_value_of(k, r, q, tau, s, v) is Some,
        d1_of(k, r, q, tau, s, v)->0 > CDF_SAT,
        d2_of(k, r, q, tau, s, v)->0 > CDF_SAT,
    ensures
        call_value_of(k, r, q, tau, s, v)->0 == fmul_spec(s, df_of(q, tau)->0) - fmul_spec(
            k,
            df_of(r, tau)->0,
        ),
        put_value_of(k, r, q, tau, s, v) is Some ==> put_value_of(k, r, q, tau, s, v)->0 == 0,
{
    lemma_fmul_one(s);
    lemma_fmul_one(fmul_spec(k, df_of(r, tau)->0));
    lemma_fmul_zero(fmul_spec(k, df_of(r, tau)->0));
    lemma_fmul_zero(s);
    lemma_fmul_zero(df_of(q, tau)->0);
}

/// Deep out of the money — both tails saturated the other way — the call
/// value is exactly zero, and the put value is exactly the discounted strike
/// less the discounted spot.
pub proof fn boundary_out_of_the_money(k: int, r: int, q: int, tau: int, s: int, v: int)
    requires
        put_value_of(k, r, q, tau, s, v) is Some,
        d1_of(k, r, q, tau, s, v)->0 < -CDF_SAT,
        d2_of(k, r, q, tau, s, v)->0 < -CDF_SAT,
    ensures
        put_value_of(k, r, q, tau, s, v)->0 == fmul_spec(k, df_of(r, tau)->0) - fmul_spec(
            s,
            df_of(q, tau)->0,
        ),
        call_value_of(k, r, q, tau, s, v) is Some ==> call_value_of(k, r, q, tau, s, v)->0 == 0,
{
    lemma_fmul_one(s);
    lemma_fmul_one(fmul_spec(k, df_of(r, tau)->0));
    lemma_fmul_zero(fmul_spec(k, df_of(r, tau)->0));
    lemma_fmul_zero(s);
    lemma_fmul_zero(df_of(q, tau)->0);
}

} // verus!
