use pathtracer::math::FX_ONE;
use pathtracer::rng::get_rand_generator;
use pathtracer::vec3::{random_vec3, random_vec3_rng, Vec3};

#[test]
fn test_magnitude() {
    let unit_vector = Vec3::one().unit_vector();
    let m = unit_vector.magnitude();
    assert!((m - FX_ONE).abs() <= 4);
}

#[test]
fn test_add_sub() {
    let sum = Vec3::one().add(Vec3::one());
    let difference = Vec3::new(2 * FX_ONE, 2 * FX_ONE, 2 * FX_ONE).sub(sum);
    assert!(difference.magnitude().abs() == 0);
}

#[test]
fn test_mul_div() {
    assert_eq!(
        Vec3::new(FX_ONE, 2 * FX_ONE, 3 * FX_ONE).mul(Vec3::new(3 * FX_ONE, 2 * FX_ONE, FX_ONE)),
        Vec3::new(3 * FX_ONE, 4 * FX_ONE, 3 * FX_ONE)
    );
    assert_eq!(
        Vec3::one().div(4 * FX_ONE),
        Vec3::new(16384, 16384, 16384)
    );
}

#[test]
fn test_dot() {
    assert_eq!(Vec3::unit_x().dot(Vec3::unit_y()), 0);
}

#[test]
fn test_cross() {
    assert_eq!(Vec3::unit_x().cross(Vec3::unit_y()), Vec3::unit_z());
}

#[test]
fn test_unit_vector_values() {
    let u = Vec3::one().unit_vector();
    assert_eq!(u, Vec3::new(37837, 37837, 37837));
    assert_eq!(Vec3::unit_x().unit_vector(), Vec3::unit_x());
}

#[test]
fn test_unit_vector_of_zero_is_guarded() {
    // A zero direction has no unit vector; the result is the zero
    // vector rather than an invalid value.
    assert_eq!(Vec3::zero().unit_vector(), Vec3::zero());
    assert_eq!(Vec3::zero().magnitude(), 0);
}

#[test]
fn test_div_by_zero_is_guarded() {
    assert_eq!(Vec3::one().div(0), Vec3::zero());
}

#[test]
fn test_random_vec3_ranges() {
    let mut rng = get_rand_generator(7);
    for _ in 0..32 {
        let v = random_vec3(&mut rng);
        assert!(0 <= v.x && v.x < FX_ONE);
        assert!(0 <= v.y && v.y < FX_ONE);
        assert!(0 <= v.z && v.z < FX_ONE);
        let w = random_vec3_rng(&mut rng, -FX_ONE, FX_ONE);
        assert!(-FX_ONE <= w.x && w.x < FX_ONE);
        assert!(-FX_ONE <= w.y && w.y < FX_ONE);
        assert!(-FX_ONE <= w.z && w.z < FX_ONE);
    }
}
