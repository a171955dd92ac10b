//! Tests of the pricer: the concrete market scenario, the model laws on
//! concrete values, the boundary behaviour near expiry, and every error.

use option_pricing::{EuropeanOption, PriceError, SCALE};

/// `K = 100, r = 0.04, q = 0.1, tau = 1.2, S = 80, vol = 0.2`.
fn scenario() -> EuropeanOption {
    EuropeanOption {
        observed_price: None,
        strike: 100_000_000_000,
        rate: 40_000_000,
        vol: Some(200_000_000),
        dividend: 100_000_000,
        tau: 1_200_000_000,
        spot: 80_000_000_000,
    }
}

fn as_f64(x: i64) -> f64 {
    x as f64 / SCALE as f64
}

#[test]
fn scenario_intermediates() {
    let o = scenario();
    let d1 = o.d1().unwrap();
    let d2 = o.d2().unwrap();
    // reference values: d1 = -1.237595328, d2 = -1.456684351
    assert!((d1 - -1_237_595_328).abs() < 100, "d1 = {d1}");
    assert!((d2 - -1_456_684_351).abs() < 100, "d2 = {d2}");
}

#[test]
fn scenario_call_value() {
    let o = scenario();
    let call = o.call_value().unwrap();
    // reference value: 0.738324327
    assert!((call - 738_324_327).abs() < 100_000, "call = {call}");
}

#[test]
fn scenario_put_value() {
    let o = scenario();
    let put = o.put_value().unwrap();
    // reference value: 25.098068097
    assert!((put - 25_098_068_097).abs() < 100_000, "put = {put}");
}

#[test]
fn scenario_delta_strictly_inside_unit_interval() {
    let o = scenario();
    let delta = o.delta().unwrap();
    // reference value: 0.107933074
    assert!((delta - 107_933_074).abs() < 10_000, "delta = {delta}");
    assert!(0 < delta && delta < SCALE);
}

#[test]
fn scenario_remaining_sensitivities() {
    let o = scenario();
    let gamma = o.gamma().unwrap();
    let vega = o.vega().unwrap();
    let ct = o.call_theta().unwrap();
    let pt = o.put_theta().unwrap();
    let cr = o.call_rho().unwrap();
    let pr = o.put_rho().unwrap();
    // reference values: gamma 0.010582970, vega 14.417284247,
    // call theta -1.631417000, put theta 2.181118148,
    // call rho 15.126191562
    assert!((gamma - 10_582_970).abs() < 2_000, "gamma = {gamma}");
    assert!((vega - 14_417_284_247).abs() < 50_000, "vega = {vega}");
    assert!((ct - -1_631_417_000).abs() < 50_000, "call theta = {ct}");
    assert!((pt - 2_181_118_148).abs() < 50_000, "put theta = {pt}");
    assert!((cr - 15_126_191_562).abs() < 50_000, "call rho = {cr}");
    assert_eq!(pr, -cr);
}

#[test]
fn put_call_parity_scenario() {
    let o = scenario();
    let call = as_f64(o.call_value().unwrap());
    let put = as_f64(o.put_value().unwrap());
    let s = as_f64(o.spot);
    let k = as_f64(o.strike);
    let parity = call - s * (-0.1f64 * 1.2).exp() + k * (-0.04f64 * 1.2).exp();
    assert!((put - parity).abs() < 1e-5, "put = {put}, parity = {parity}");
}

#[test]
fn theta_relation_scenario() {
    let o = scenario();
    let ct = o.call_theta().unwrap();
    let pt = o.put_theta().unwrap();
    // r K e^(-r tau) = 3.812535148
    let diff = pt - ct;
    assert!((diff - 3_812_535_148).abs() < 50, "difference = {diff}");
}

#[test]
fn delta_increasing_in_spot() {
    let mut lower = scenario();
    lower.spot = 70_000_000_000;
    let mut higher = scenario();
    higher.spot = 100_000_000_000;
    let d_low = lower.delta().unwrap();
    let d_mid = scenario().delta().unwrap();
    let d_high = higher.delta().unwrap();
    assert!(0 < d_low && d_low < d_mid && d_mid < d_high && d_high < SCALE);
}

#[test]
fn gamma_and_vega_strictly_positive() {
    let o = scenario();
    assert!(o.gamma().unwrap() > 0);
    assert!(o.vega().unwrap() > 0);
}

#[test]
fn implied_vol_round_trip() {
    let o = scenario();
    let call = o.call_value().unwrap();
    let probe = EuropeanOption { observed_price: Some(call), vol: None, ..o };
    let iv = probe.implied_vol().unwrap();
    // must recover vol = 0.2 within the solver tolerance of 1e-4
    assert!((iv - 200_000_000).abs() < 100_000, "implied vol = {iv}");
}

#[test]
fn implied_vol_works_beside_a_set_volatility() {
    // both optionals may be present at once; the solver only reads the price
    let o = scenario();
    let call = o.call_value().unwrap();
    let probe = EuropeanOption { observed_price: Some(call), ..o };
    let iv = probe.implied_vol().unwrap();
    assert!((iv - 200_000_000).abs() < 100_000, "implied vol = {iv}");
}

#[test]
fn boundary_near_expiry_in_the_money() {
    // tau = 1e-6 years: the call collapses to its discounted intrinsic value
    let mut o = scenario();
    o.tau = 1_000;
    o.spot = 120_000_000_000;
    let call = o.call_value().unwrap();
    // S e^(-q tau) - K e^(-r tau) = 19.999992000
    assert!((call - 19_999_992_000).abs() <= 5, "call = {call}");
}

#[test]
fn boundary_near_expiry_out_of_the_money() {
    let mut o = scenario();
    o.tau = 1_000;
    let call = o.call_value().unwrap();
    assert_eq!(call, 0);
    let put = o.put_value().unwrap();
    // K e^(-r tau) - S e^(-q tau) = 20.000004000
    assert!((put - 20_000_004_000).abs() <= 5, "put = {put}");
}

#[test]
fn missing_volatility_is_reported() {
    let o = EuropeanOption { vol: None, ..scenario() };
    assert_eq!(o.delta(), Err(PriceError::MissingParameter));
    assert_eq!(o.d1(), Err(PriceError::MissingParameter));
    assert_eq!(o.d2(), Err(PriceError::MissingParameter));
    assert_eq!(o.call_value(), Err(PriceError::MissingParameter));
    assert_eq!(o.put_value(), Err(PriceError::MissingParameter));
    assert_eq!(o.call_theta(), Err(PriceError::MissingParameter));
    assert_eq!(o.put_theta(), Err(PriceError::MissingParameter));
    assert_eq!(o.gamma(), Err(PriceError::MissingParameter));
    assert_eq!(o.vega(), Err(PriceError::MissingParameter));
    assert_eq!(o.call_rho(), Err(PriceError::MissingParameter));
    assert_eq!(o.put_rho(), Err(PriceError::MissingParameter));
}

#[test]
fn missing_observed_price_is_reported() {
    let o = scenario();
    assert_eq!(o.implied_vol(), Err(PriceError::MissingParameter));
}

#[test]
fn non_positive_parameters_are_rejected() {
    let negative_spot = EuropeanOption { spot: -5, ..scenario() };
    assert_eq!(negative_spot.call_value(), Err(PriceError::InvalidDomain));
    let zero_tau = EuropeanOption { tau: 0, ..scenario() };
    assert_eq!(zero_tau.delta(), Err(PriceError::InvalidDomain));
    let zero_vol = EuropeanOption { vol: Some(0), ..scenario() };
    assert_eq!(zero_vol.vega(), Err(PriceError::InvalidDomain));
    let bad_strike = EuropeanOption {
        strike: 0,
        observed_price: Some(1_000_000_000),
        ..scenario()
    };
    assert_eq!(bad_strike.implied_vol(), Err(PriceError::InvalidDomain));
}

#[test]
fn unrepresentable_intermediates_are_reported() {
    let extreme = EuropeanOption { strike: 1, spot: i64::MAX, ..scenario() };
    assert_eq!(extreme.d1(), Err(PriceError::Overflow));
}

#[test]
fn hopeless_observed_price_fails_to_converge() {
    // a price far above the discounted spot has no implied volatility
    let o = EuropeanOption {
        observed_price: Some(1_000_000_000_000),
        vol: None,
        ..scenario()
    };
    assert_eq!(o.implied_vol(), Err(PriceError::ConvergenceFailure));
}
