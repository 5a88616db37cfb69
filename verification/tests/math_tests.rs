//! Tests for the fixed-point math utilities. Values are fixed-point
//! thousandths: 5.0 is written 5000.

use gameplay_ability_system::math::apply_multiplier;
use gameplay_ability_system::math::clamp_optional;
use gameplay_ability_system::math::div_scaled;
use gameplay_ability_system::math::inverse_lerp;
use gameplay_ability_system::math::lerp;
use gameplay_ability_system::math::mul_scaled;
use gameplay_ability_system::math::normalize;
use gameplay_ability_system::math::percentage;
use gameplay_ability_system::math::remap;
use gameplay_ability_system::math::sat_add;
use gameplay_ability_system::math::sat_sub;
use gameplay_ability_system::math::smoothstep;

#[test]
fn test_clamp_optional() {
    assert_eq!(clamp_optional(5000, Some(0), Some(10000)), 5000);
    assert_eq!(clamp_optional(-5000, Some(0), Some(10000)), 0);
    assert_eq!(clamp_optional(15000, Some(0), Some(10000)), 10000);
    assert_eq!(clamp_optional(5000, None, Some(10000)), 5000);
    assert_eq!(clamp_optional(5000, Some(0), None), 5000);
    assert_eq!(clamp_optional(5000, None, None), 5000);
}

#[test]
fn test_lerp() {
    assert_eq!(lerp(0, 10000, 0), 0);
    assert_eq!(lerp(0, 10000, 500), 5000);
    assert_eq!(lerp(0, 10000, 1000), 10000);
}

#[test]
fn test_inverse_lerp() {
    assert_eq!(inverse_lerp(0, 10000, 0), 0);
    assert_eq!(inverse_lerp(0, 10000, 5000), 500);
    assert_eq!(inverse_lerp(0, 10000, 10000), 1000);
}

#[test]
fn test_remap() {
    assert_eq!(remap(5000, 0, 10000, 0, 100000), 50000);
    assert_eq!(remap(0, 0, 10000, 0, 100000), 0);
    assert_eq!(remap(10000, 0, 10000, 0, 100000), 100000);
}

#[test]
fn test_percentage() {
    assert_eq!(percentage(50000, 100000), 50000);
    assert_eq!(percentage(100000, 100000), 100000);
    assert_eq!(percentage(0, 100000), 0);
    assert_eq!(percentage(150000, 100000), 100000); // Clamped
}

#[test]
fn test_normalize() {
    assert_eq!(normalize(50000, 100000), 500);
    assert_eq!(normalize(100000, 100000), 1000);
    assert_eq!(normalize(0, 100000), 0);
}

#[test]
fn test_apply_multiplier() {
    // Additive: 100 + (100 * 0.5) = 150
    assert_eq!(apply_multiplier(100000, 500, true), 150000);
    // Multiplicative: 100 * 1.5 = 150
    assert_eq!(apply_multiplier(100000, 1500, false), 150000);
}

#[test]
fn test_saturating_arithmetic() {
    assert_eq!(sat_add(i64::MAX, 1), i64::MAX);
    assert_eq!(sat_sub(i64::MIN, 1), i64::MIN);
    assert_eq!(sat_add(2000, 3000), 5000);
    assert_eq!(sat_sub(2000, 3000), -1000);
}

#[test]
fn test_scaled_multiplication_rounds_toward_zero() {
    assert_eq!(mul_scaled(1500, 2000), 3000);
    assert_eq!(mul_scaled(-1500, 2000), -3000);
    assert_eq!(mul_scaled(1, 1), 0);
    assert_eq!(mul_scaled(-1, 1), 0);
}

#[test]
fn test_scaled_division() {
    assert_eq!(div_scaled(3000, 2000), 1500);
    assert_eq!(div_scaled(-3000, 2000), -1500);
    assert_eq!(div_scaled(3000, -2000), -1500);
    assert_eq!(div_scaled(-3000, -2000), 1500);
}

#[test]
fn test_smoothstep_midpoint() {
    assert_eq!(smoothstep(0, 1000, 500), 500);
    assert_eq!(smoothstep(0, 1000, 0), 0);
    assert_eq!(smoothstep(0, 1000, 1000), 1000);
}
