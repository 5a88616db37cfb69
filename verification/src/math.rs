//! Fixed-point arithmetic and math utilities for gameplay calculations.
//!
//! Every gameplay quantity (attribute values, modifier magnitudes, durations,
//! interpolation factors) is an `i64` count of thousandths: `FP_SCALE` steps
//! make one whole unit. Arithmetic saturates at the `i64` range instead of
//! overflowing, and division truncates toward zero.

use vstd::prelude::*;

verus! {

/// Fixed-point steps per whole unit: values carry three decimal places
/// (`1.5` is stored as `1500`).
pub const FP_SCALE: i64 = 1000;

/// Saturates a mathematical integer into the `i64` range.
pub open spec fn sat64(x: int) -> int {
    if x > i64::MAX as int {
        i64::MAX as int
    } else if x < i64::MIN as int {
        i64::MIN as int
    } else {
        x
    }
}

/// Magnitude of a mathematical integer.
pub open spec fn abs_int(x: int) -> int {
    if x < 0 {
        -x
    } else {
        x
    }
}

/// Quotient of `a` and `b` truncated toward zero, the rounding executable
/// division uses (spec `/` alone is Euclidean).
pub open spec fn div_trunc(a: int, b: int) -> int
    recommends
        b != 0,
{
    if (a < 0) == (b < 0) {
        abs_int(a) / abs_int(b)
    } else {
        -(abs_int(a) / abs_int(b))
    }
}

/// The product of two `i64`-range factors stays well inside the `i128` range.
proof fn lemma_i64_mul_fits(a: int, b: int)
    requires
        i64::MIN <= a <= i64::MAX,
        i64::MIN <= b <= i64::MAX,
    ensures
        -0x4000_0000_0000_0000_0000_0000_0000_0000 <= a * b
            <= 0x4000_0000_0000_0000_0000_0000_0000_0000,
{
    assert(-0x4000_0000_0000_0000_0000_0000_0000_0000 <= a * b
        <= 0x4000_0000_0000_0000_0000_0000_0000_0000) by (nonlinear_arith)
        requires
            -0x8000_0000_0000_0000 <= a <= 0x7fff_ffff_ffff_ffff,
            -0x8000_0000_0000_0000 <= b <= 0x7fff_ffff_ffff_ffff,
    ;
}

/// Saturating fixed-point sum.
pub open spec fn spec_sat_add(a: int, b: int) -> int {
    sat64(a + b)
}

/// Saturating fixed-point difference.
pub open spec fn spec_sat_sub(a: int, b: int) -> int {
    sat64(a - b)
}

/// Saturating fixed-point product: `a * b` rescaled by `FP_SCALE`.
pub open spec fn spec_mul_scaled(a: int, b: int) -> int {
    sat64(div_trunc(a * b, FP_SCALE as int))
}

/// Saturating fixed-point quotient: `a / b` rescaled by `FP_SCALE`.
pub open spec fn spec_div_scaled(a: int, b: int) -> int
    recommends
        b != 0,
{
    sat64(div_trunc(a * FP_SCALE as int, b))
}

/// Adds two fixed-point numbers, saturating at the `i64` range.
pub fn sat_add(a: i64, b: i64) -> (r: i64)
    ensures
        r as int == spec_sat_add(a as int, b as int),
{
    let wide: i128 = a as i128 + b as i128;
    if wide > i64::MAX as i128 {
        i64::MAX
    } else if wide < i64::MIN as i128 {
        i64::MIN
    } else {
        wide as i64
    }
}

/// Subtracts two fixed-point numbers, saturating at the `i64` range.
pub fn sat_sub(a: i64, b: i64) -> (r: i64)
    ensures
        r as int == spec_sat_sub(a as int, b as int),
{
    let wide: i128 = a as i128 - b as i128;
    if wide > i64::MAX as i128 {
        i64::MAX
    } else if wide < i64::MIN as i128 {
        i64::MIN
    } else {
        wide as i64
    }
}

/// Multiplies two fixed-point numbers (`1500 * 2000` is `3000`), truncating
/// toward zero and saturating at the `i64` range.
pub fn mul_scaled(a: i64, b: i64) -> (r: i64)
    ensures
        r as int == spec_mul_scaled(a as int, b as int),
{
    proof {
        lemma_i64_mul_fits(a as int, b as int);
    }
    let wide: i128 = a as i128 * b as i128;
    let q: i128 = if wide < 0 {
        -((-wide) / (FP_SCALE as i128))
    } else {
        wide / (FP_SCALE as i128)
    };
    if q > i64::MAX as i128 {
        i64::MAX
    } else if q < i64::MIN as i128 {
        i64::MIN
    } else {
        q as i64
    }
}

/// Divides two fixed-point numbers (`3000 / 2000` is `1500`), truncating
/// toward zero and saturating at the `i64` range.
pub fn div_scaled(a: i64, b: i64) -> (r: i64)
    requires
        b != 0,
    ensures
        r as int == spec_div_scaled(a as int, b as int),
{
    let abs_a: i128 = if a < 0 {
        -(a as i128)
    } else {
        a as i128
    };
    let abs_b: i128 = if b < 0 {
        -(b as i128)
    } else {
        b as i128
    };
    proof {
        assert(abs_a as int * FP_SCALE as int <= 0x8000_0000_0000_0000 * 1000) by (nonlinear_arith)
            requires
                0 <= abs_a as int <= 0x8000_0000_0000_0000,
        ;
    }
    let q: i128 = (abs_a * (FP_SCALE as i128)) / abs_b;
    let signed: i128 = if (a < 0) != (b < 0) {
        -q
    } else {
        q
    };
    if signed > i64::MAX as i128 {
        i64::MAX
    } else if signed < i64::MIN as i128 {
        i64::MIN
    } else {
        signed as i64
    }
}

/// What `clamp_optional` returns: the upper bound is applied after the lower
/// bound, so when the bounds cross, the upper bound wins.
pub open spec fn spec_clamp_optional(value: int, min: Option<int>, max: Option<int>) -> int {
    let lower = match min {
        Some(min_val) => if value < min_val {
            min_val
        } else {
            value
        },
        None => value,
    };
    match max {
        Some(max_val) => if lower > max_val {
            max_val
        } else {
            lower
        },
        None => lower,
    }
}

/// Clamps a value between a minimum and maximum.
///
/// If min or max is None, that bound is not enforced.
pub fn clamp_optional(value: i64, min: Option<i64>, max: Option<i64>) -> (r: i64)
    ensures
        r as int == spec_clamp_optional(
            value as int,
            match min {
                Some(m) => Some(m as int),
                None => None,
            },
            match max {
                Some(m) => Some(m as int),
                None => None,
            },
        ),
{
    let mut result = value;
    if let Some(min_val) = min {
        if result < min_val {
            result = min_val;
        }
    }
    if let Some(max_val) = max {
        if result > max_val {
            result = max_val;
        }
    }
    result
}

/// What `lerp` returns.
pub open spec fn spec_lerp(a: int, b: int, t: int) -> int {
    spec_sat_add(a, spec_mul_scaled(spec_sat_sub(b, a), t))
}

/// Linear interpolation between two values, `t` being a fixed-point factor
/// (`500` is the midpoint).
pub fn lerp(a: i64, b: i64, t: i64) -> (r: i64)
    ensures
        r as int == spec_lerp(a as int, b as int, t as int),
{
    sat_add(a, mul_scaled(sat_sub(b, a), t))
}

/// What `inverse_lerp` returns: `0` when the endpoints coincide.
pub open spec fn spec_inverse_lerp(a: int, b: int, value: int) -> int {
    if spec_sat_sub(b, a) == 0 {
        0
    } else {
        spec_div_scaled(spec_sat_sub(value, a), spec_sat_sub(b, a))
    }
}

/// Inverse linear interpolation - returns the t value for a given interpolated value.
pub fn inverse_lerp(a: i64, b: i64, value: i64) -> (r: i64)
    ensures
        r as int == spec_inverse_lerp(a as int, b as int, value as int),
{
    let span = sat_sub(b, a);
    if span == 0 {
        0
    } else {
        div_scaled(sat_sub(value, a), span)
    }
}

/// What `remap` returns.
pub open spec fn spec_remap(value: int, from_min: int, from_max: int, to_min: int, to_max: int) -> int {
    spec_lerp(to_min, to_max, spec_inverse_lerp(from_min, from_max, value))
}

/// Normalizes a value from one range to another.
pub fn remap(value: i64, from_min: i64, from_max: i64, to_min: i64, to_max: i64) -> (r: i64)
    ensures
        r as int == spec_remap(value as int, from_min as int, from_max as int, to_min as int, to_max as int),
{
    let t = inverse_lerp(from_min, from_max, value);
    lerp(to_min, to_max, t)
}

/// What `smoothstep` returns.
pub open spec fn spec_smoothstep(edge0: int, edge1: int, x: int) -> int {
    let t = spec_clamp_optional(
        spec_div_scaled(spec_sat_sub(x, edge0), spec_sat_sub(edge1, edge0)),
        Some(0),
        Some(FP_SCALE as int),
    );
    spec_mul_scaled(spec_mul_scaled(t, t), spec_sat_sub(3 * FP_SCALE as int, spec_mul_scaled(2 * FP_SCALE as int, t)))
}

/// Smoothstep interpolation (smooth ease-in/ease-out).
pub fn smoothstep(edge0: i64, edge1: i64, x: i64) -> (r: i64)
    requires
        edge0 != edge1,
        spec_sat_sub(edge1 as int, edge0 as int) != 0,
    ensures
        r as int == spec_smoothstep(edge0 as int, edge1 as int, x as int),
{
    let t = clamp_optional(div_scaled(sat_sub(x, edge0), sat_sub(edge1, edge0)), Some(0), Some(FP_SCALE));
    let three: i64 = 3 * FP_SCALE;
    let two: i64 = 2 * FP_SCALE;
    mul_scaled(mul_scaled(t, t), sat_sub(three, mul_scaled(two, t)))
}

/// What `percentage` returns.
pub open spec fn spec_percentage(current: int, max: int) -> int {
    if max <= 0 {
        0
    } else {
        spec_clamp_optional(
            spec_mul_scaled(spec_div_scaled(current, max), 100 * FP_SCALE as int),
            Some(0),
            Some(100 * FP_SCALE as int),
        )
    }
}

/// Calculates a percentage value (0-100) from a current and max value.
pub fn percentage(current: i64, max: i64) -> (r: i64)
    ensures
        r as int == spec_percentage(current as int, max as int),
{
    if max <= 0 {
        0
    } else {
        let hundred: i64 = 100 * FP_SCALE;
        clamp_optional(mul_scaled(div_scaled(current, max), hundred), Some(0), Some(hundred))
    }
}

/// What `normalize` returns.
pub open spec fn spec_normalize(current: int, max: int) -> int {
    if max <= 0 {
        0
    } else {
        spec_clamp_optional(spec_div_scaled(current, max), Some(0), Some(FP_SCALE as int))
    }
}

/// Calculates a normalized value (0-1) from a current and max value.
pub fn normalize(current: i64, max: i64) -> (r: i64)
    ensures
        r as int == spec_normalize(current as int, max as int),
{
    if max <= 0 {
        0
    } else {
        clamp_optional(div_scaled(current, max), Some(0), Some(FP_SCALE))
    }
}

/// What `apply_multiplier` returns.
pub open spec fn spec_apply_multiplier(base: int, multiplier: int, is_additive: bool) -> int {
    if is_additive {
        spec_sat_add(base, spec_mul_scaled(base, multiplier))
    } else {
        spec_mul_scaled(base, multiplier)
    }
}

/// Applies a scalar multiplier with proper handling of additive vs multiplicative.
///
/// For additive: result = base + (base * multiplier)
/// For multiplicative: result = base * multiplier
pub fn apply_multiplier(base: i64, multiplier: i64, is_additive: bool) -> (r: i64)
    ensures
        r as int == spec_apply_multiplier(base as int, multiplier as int, is_additive),
{
    if is_additive {
        sat_add(base, mul_scaled(base, multiplier))
    } else {
        mul_scaled(base, multiplier)
    }
}

} // verus!
