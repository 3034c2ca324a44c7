use pathtracer::math::{
    add_fx, clamp_num, degrees_to_radians, div_fx, mul_fx, sqrt_fx, sub_fx, tan_fx, FX_MAX,
    FX_ONE, PI,
};

#[test]
fn test_clamp_num_values() {
    assert_eq!(clamp_num(5, 0, 10), 5);
    assert_eq!(clamp_num(-5, 0, 10), 0);
    assert_eq!(clamp_num(15, 0, 10), 10);
    assert_eq!(clamp_num(0, 0, 10), 0);
    assert_eq!(clamp_num(10, 0, 10), 10);
}

#[test]
fn test_degrees_to_radians_values() {
    // A half turn is pi, a right angle is half of that (up to the
    // final fixed-point digit).
    assert_eq!(degrees_to_radians(180 * FX_ONE), PI);
    assert_eq!(degrees_to_radians(90 * FX_ONE), 102943);
    assert_eq!(degrees_to_radians(0), 0);
}

#[test]
fn test_tangent_of_half_right_angle() {
    // tan(45 degrees) comes out exactly one.
    let theta = degrees_to_radians(90 * FX_ONE);
    let half = div_fx(theta, 2 * FX_ONE);
    assert_eq!(tan_fx(half), FX_ONE);
}

#[test]
fn test_sqrt_values() {
    assert_eq!(sqrt_fx(4 * FX_ONE), 2 * FX_ONE);
    assert_eq!(sqrt_fx(FX_ONE), FX_ONE);
    assert_eq!(sqrt_fx(0), 0);
    // The square root of a negative number is guarded to zero rather
    // than being an invalid value.
    assert_eq!(sqrt_fx(-FX_ONE), 0);
    // 1/4 has the exact root 1/2.
    assert_eq!(sqrt_fx(FX_ONE / 4), FX_ONE / 2);
}

#[test]
fn test_arithmetic_saturates_instead_of_overflowing() {
    assert_eq!(add_fx(FX_MAX, FX_MAX), FX_MAX);
    assert_eq!(sub_fx(-FX_MAX, FX_MAX), -FX_MAX);
    assert_eq!(mul_fx(FX_MAX, FX_MAX), FX_MAX);
    assert_eq!(mul_fx(FX_MAX, -FX_MAX), -FX_MAX);
    assert_eq!(div_fx(FX_ONE, 0), 0);
}

#[test]
fn test_fixed_point_products() {
    assert_eq!(mul_fx(FX_ONE, FX_ONE), FX_ONE);
    assert_eq!(mul_fx(FX_ONE / 2, FX_ONE / 2), FX_ONE / 4);
    assert_eq!(mul_fx(-FX_ONE / 2, FX_ONE / 2), -FX_ONE / 4);
    assert_eq!(div_fx(FX_ONE, 3 * FX_ONE), 21845);
}
