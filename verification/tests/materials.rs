use pathtracer::materials::{
    random_in_hemisphere, random_in_unit_sphere, random_unit_vector, reflect, refract, schlick,
    Dielectric, Lambertian, Material, Metal,
};
use pathtracer::math::FX_ONE;
use pathtracer::rng::get_rand_generator;
use pathtracer::types::{HitRecord, Ray};
use pathtracer::vec3::Vec3;

fn record_for(ray: &Ray, outward_normal: Vec3) -> HitRecord {
    let lambertian = pathtracer::materials::MaterialKind::Lambertian(Lambertian {
        albedo: Vec3::new(32768, 32768, 32768),
    });
    HitRecord::new(Vec3::zero(), FX_ONE, ray, outward_normal, lambertian)
}

#[test]
fn test_lambertian_never_amplifies() {
    // Attenuation is the albedo itself: with albedo components in
    // [0, 1], no component of the returned attenuation exceeds one.
    let albedo = Vec3::new(52429, 13107, 65536);
    let material = Lambertian { albedo };
    let ray = Ray { origin: Vec3::zero(), direction: Vec3::new(0, 0, -FX_ONE) };
    let record = record_for(&ray, Vec3::unit_z());
    let mut rng = get_rand_generator(11);
    for _ in 0..16 {
        let (out, attenuation) =
            material.scatter(ray, record, &mut rng).expect("lambertian always scatters");
        assert_eq!(attenuation, albedo);
        assert!(attenuation.x <= FX_ONE && attenuation.y <= FX_ONE && attenuation.z <= FX_ONE);
        assert!(attenuation.x >= 0 && attenuation.y >= 0 && attenuation.z >= 0);
        assert_eq!(out.origin, record.position);
    }
}

#[test]
fn test_metal_never_amplifies() {
    let albedo = Vec3::new(45875, 39322, 32768);
    let material = Metal::new(albedo, 0);
    let ray = Ray { origin: Vec3::new(0, FX_ONE, 0), direction: Vec3::new(0, -FX_ONE, 0) };
    let record = record_for(&ray, Vec3::unit_y());
    let mut rng = get_rand_generator(12);
    for _ in 0..16 {
        let (_, attenuation) =
            material.scatter(ray, record, &mut rng).expect("head-on reflection scatters");
        assert_eq!(attenuation, albedo);
        assert!(attenuation.x <= FX_ONE && attenuation.y <= FX_ONE && attenuation.z <= FX_ONE);
    }
}

#[test]
fn test_metal_perfect_mirror() {
    // With zero fuzz the scattered direction is the exact reflection.
    let material = Metal::new(Vec3::one(), 0);
    let ray = Ray { origin: Vec3::new(0, FX_ONE, 0), direction: Vec3::new(0, -FX_ONE, 0) };
    let record = record_for(&ray, Vec3::unit_y());
    let mut rng = get_rand_generator(13);
    let (out, _) = material.scatter(ray, record, &mut rng).expect("must scatter");
    assert_eq!(out.direction, Vec3::new(0, FX_ONE, 0));
}

#[test]
fn test_metal_absorbs_grazing_reflection() {
    // When the (unperturbed) reflection does not leave the surface the
    // ray is absorbed: this is the expected no-scatter outcome, not an
    // error.
    let material = Metal::new(Vec3::one(), 0);
    // A ray grazing along the surface reflects into the surface plane:
    // the reflection does not point away from it, so the ray is
    // absorbed.
    let ray = Ray { origin: Vec3::zero(), direction: Vec3::new(FX_ONE, 0, 0) };
    let record = record_for(&ray, Vec3::unit_y());
    let mut rng = get_rand_generator(14);
    assert!(material.scatter(ray, record, &mut rng).is_none());
}

#[test]
fn test_metal_new_clamps_fuzz() {
    // The roughness is clamped into [0, 1] on both sides.
    let metal = Metal::new(Vec3::one(), 3 * FX_ONE);
    assert_eq!(metal.fuzz(), FX_ONE);
    let rough = Metal::new(Vec3::one(), 16384);
    assert_eq!(rough.fuzz(), 16384);
    let negative = Metal::new(Vec3::one(), -FX_ONE);
    assert_eq!(negative.fuzz(), 0);
}

#[test]
fn test_dielectric_total_internal_reflection() {
    // A grazing ray inside the denser medium: eta * sin_theta > 1, so
    // the material must reflect, deterministically, with neutral
    // attenuation.
    let material = Dielectric { refraction_index: 98304 };
    let ray = Ray { origin: Vec3::zero(), direction: Vec3::new(FX_ONE, 0, 0) };
    // The ray runs parallel to the surface whose outward normal is the
    // third axis: the record is a back face, so the ratio is the full
    // refraction index 1.5 and sin_theta is one.
    let record = record_for(&ray, Vec3::unit_z());
    assert!(!record.front_face);
    let expected = reflect(ray.direction.unit_vector(), record.normal);
    for seed in 0..8 {
        let mut rng = get_rand_generator(seed);
        let (out, attenuation) =
            material.scatter(ray, record, &mut rng).expect("dielectric always scatters");
        assert_eq!(out.direction, expected);
        assert_eq!(attenuation, Vec3::one());
    }
}

#[test]
fn test_dielectric_always_scatters_neutral() {
    let material = Dielectric { refraction_index: 98304 };
    let ray = Ray { origin: Vec3::zero(), direction: Vec3::new(0, -FX_ONE, 0) };
    let record = record_for(&ray, Vec3::unit_y());
    let mut rng = get_rand_generator(21);
    for _ in 0..16 {
        let (_, attenuation) = material.scatter(ray, record, &mut rng).expect("must scatter");
        assert_eq!(attenuation, Vec3::one());
    }
}

#[test]
fn test_reflect_value() {
    let reflected = reflect(Vec3::new(0, -FX_ONE, 0), Vec3::unit_y());
    assert_eq!(reflected, Vec3::new(0, FX_ONE, 0));
}

#[test]
fn test_refract_straight_through() {
    // Refraction with a unit ratio along the normal passes straight
    // through.
    let refracted = refract(Vec3::new(0, 0, -FX_ONE), Vec3::unit_z(), FX_ONE);
    assert_eq!(refracted, Vec3::new(0, 0, -FX_ONE));
}

#[test]
fn test_schlick_normal_incidence() {
    // Head-on against glass of index 1.5: the reflectance is about
    // 0.04, exactly 2621/65536 in fixed point.
    assert_eq!(schlick(FX_ONE, 98304), 2621);
}

#[test]
fn test_random_samplers() {
    let mut rng = get_rand_generator(31);
    for _ in 0..32 {
        let s = random_in_unit_sphere(&mut rng);
        assert!(s.magnitude_squared() < FX_ONE);
        // Samples below half a unit are rejected before normalizing,
        // so the result's magnitude stays in a narrow band around one.
        let u = random_unit_vector(&mut rng);
        assert!(u.magnitude() >= FX_ONE - 4);
        assert!(u.magnitude() <= FX_ONE + 9);
        let h = random_in_hemisphere(Vec3::unit_y(), &mut rng);
        assert!(h.dot(Vec3::unit_y()) >= 0);
    }
}
