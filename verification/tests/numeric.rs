//! Tests of the fixed-point primitives and the normal-distribution helpers.

use option_pricing::SCALE;
use option_pricing::fixed::{fadd, fdiv, fhalf, fmul, fneg, fsqrt};
use option_pricing::normal::{fexp, fln, norm_cdf, norm_pdf};

#[test]
fn fixed_mul_truncates_toward_zero() {
    assert_eq!(fmul(3_000_000_000, 2_000_000_000), Some(6_000_000_000));
    assert_eq!(fmul(1, 1), Some(0));
    assert_eq!(fmul(-3, 500_000_000), Some(-1));
    assert_eq!(fmul(i64::MAX, i64::MAX), None);
}

#[test]
fn fixed_div_truncates_toward_zero() {
    assert_eq!(fdiv(1_000_000_000, 3_000_000_000), Some(333_333_333));
    assert_eq!(fdiv(-1_000_000_000, 3_000_000_000), Some(-333_333_333));
    assert_eq!(fdiv(1, 0), None);
    assert_eq!(fdiv(i64::MAX, 1), None);
}

#[test]
fn fixed_add_and_neg_check_the_range() {
    assert_eq!(fadd(2, 3), Some(5));
    assert_eq!(fadd(i64::MAX, 1), None);
    assert_eq!(fneg(7), Some(-7));
    assert_eq!(fneg(i64::MIN), None);
}

#[test]
fn fixed_half_truncates_toward_zero() {
    assert_eq!(fhalf(7), 3);
    assert_eq!(fhalf(-3), -1);
    assert_eq!(fhalf(0), 0);
}

#[test]
fn fixed_sqrt_is_the_floor_root() {
    assert_eq!(fsqrt(4_000_000_000), 2_000_000_000);
    assert_eq!(fsqrt(2_000_000_000), 1_414_213_562);
    assert_eq!(fsqrt(0), 0);
    assert_eq!(fsqrt(1_200_000_000), 1_095_445_115);
}

#[test]
fn normal_cdf_center_and_symmetry() {
    assert_eq!(norm_cdf(0), 500_000_000);
    let up = norm_cdf(1_000_000_000);
    let down = norm_cdf(-1_000_000_000);
    // Phi(1) = 0.841344746...
    assert!((up - 841_344_746).abs() < 5_000, "cdf(1) = {up}");
    let sum = up + down;
    assert!(sum == SCALE || sum == SCALE - 1, "sum = {sum}");
    assert_eq!(norm_cdf(i64::MAX), SCALE);
    assert_eq!(norm_cdf(i64::MIN), 0);
}

#[test]
fn normal_pdf_values() {
    // phi(0) = 1/sqrt(2 pi) = 0.398942280...
    assert_eq!(norm_pdf(0), Some(398_942_280));
    let p = norm_pdf(1_000_000_000).unwrap();
    // phi(1) = 0.241970724...
    assert!((p - 241_970_724).abs() < 1_000, "pdf(1) = {p}");
    assert_eq!(norm_pdf(1_000_000_000), norm_pdf(-1_000_000_000));
}

#[test]
fn exp_and_ln_primitives() {
    assert_eq!(fexp(0), Some(SCALE));
    assert_eq!(fln(SCALE), Some(0));
    assert_eq!(fln(0), None);
    assert_eq!(fln(-5), None);
    let e = fexp(SCALE).unwrap();
    assert!((e - 2_718_281_828).abs() <= 2, "exp(1) = {e}");
    let l = fln(2_718_281_828).unwrap();
    assert!((l - SCALE).abs() < 5, "ln(e) = {l}");
}
