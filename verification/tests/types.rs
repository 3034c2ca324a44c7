use pathtracer::materials::{Lambertian, MaterialKind};
use pathtracer::math::{FX_INFINITY, FX_ONE};
use pathtracer::rng::get_rand_generator;
use pathtracer::types::{Camera, Hit, HittablesList, Ray, Sphere};
use pathtracer::vec3::Vec3;

fn gray() -> MaterialKind {
    MaterialKind::Lambertian(Lambertian { albedo: Vec3::new(32768, 32768, 32768) })
}

#[test]
fn test_at() {
    let ray = Ray { origin: Vec3::zero(), direction: Vec3::one() };
    assert_eq!(ray.at(5 * FX_ONE), Vec3::new(5 * FX_ONE, 5 * FX_ONE, 5 * FX_ONE));
}

#[test]
fn test_sphere_hit_head_on() {
    // A ray from the origin toward (0,0,-1) against a sphere of
    // radius one half centered at (0,0,-1): hit at t = 1/2 with
    // outward-facing normal (0,0,1).
    let sphere = Sphere {
        center: Vec3::new(0, 0, -FX_ONE),
        radius: FX_ONE / 2,
        material: gray(),
    };
    let ray = Ray { origin: Vec3::zero(), direction: Vec3::new(0, 0, -FX_ONE) };
    let rec = sphere.hit(&ray, 66, FX_INFINITY).expect("the ray must hit");
    assert_eq!(rec.t, FX_ONE / 2);
    assert_eq!(rec.normal, Vec3::new(0, 0, FX_ONE));
    assert_eq!(rec.position, Vec3::new(0, 0, -FX_ONE / 2));
    assert!(rec.front_face);
}

#[test]
fn test_sphere_miss() {
    // The same ray misses a distant off-axis sphere entirely.
    let sphere = Sphere {
        center: Vec3::new(5 * FX_ONE, 5 * FX_ONE, 5 * FX_ONE),
        radius: FX_ONE / 2,
        material: gray(),
    };
    let ray = Ray { origin: Vec3::zero(), direction: Vec3::new(0, 0, -FX_ONE) };
    assert!(sphere.hit(&ray, 66, FX_INFINITY).is_none());
}

#[test]
fn test_negative_radius_inverted_shell() {
    // A negative radius is deliberate: it flips the outward normal,
    // modeling a hollow shell, and is never rejected.
    let sphere = Sphere {
        center: Vec3::new(0, 0, -FX_ONE),
        radius: -(FX_ONE / 2),
        material: gray(),
    };
    let ray = Ray { origin: Vec3::zero(), direction: Vec3::new(0, 0, -FX_ONE) };
    let rec = sphere.hit(&ray, 66, FX_INFINITY).expect("the ray must hit");
    assert_eq!(rec.t, FX_ONE / 2);
    // The raw outward normal points inward, so the record is marked as
    // a back face and the stored normal is flipped to face the ray.
    assert!(!rec.front_face);
    assert_eq!(rec.normal, Vec3::new(0, 0, FX_ONE));
}

#[test]
fn test_closest_hit_is_order_independent() {
    // Two spheres on the ray's path; whichever insertion order, the
    // aggregate reports the nearer intersection at t = 1.
    let near = Sphere { center: Vec3::new(0, 0, -2 * FX_ONE), radius: FX_ONE, material: gray() };
    let far = Sphere {
        center: Vec3::new(0, 0, -4 * FX_ONE),
        radius: 2 * FX_ONE,
        material: gray(),
    };
    let ray = Ray { origin: Vec3::zero(), direction: Vec3::new(0, 0, -FX_ONE) };

    let mut world_a = HittablesList::new();
    world_a.push(near);
    world_a.push(far);
    let mut world_b = HittablesList::new();
    world_b.push(far);
    world_b.push(near);

    let rec_a = world_a.hit(&ray, 66, FX_INFINITY).expect("must hit");
    let rec_b = world_b.hit(&ray, 66, FX_INFINITY).expect("must hit");
    assert_eq!(rec_a.t, FX_ONE);
    assert_eq!(rec_b.t, FX_ONE);
    assert_eq!(rec_a.normal, Vec3::new(0, 0, FX_ONE));
    assert_eq!(rec_b.normal, Vec3::new(0, 0, FX_ONE));
}

#[test]
fn test_zero_radius_sphere_never_hits() {
    // A zero radius makes the discriminant collapse to zero at best;
    // the guarded solver reports no hit rather than dividing by the
    // radius.
    let sphere = Sphere { center: Vec3::new(0, 0, -FX_ONE), radius: 0, material: gray() };
    let ray = Ray { origin: Vec3::zero(), direction: Vec3::new(0, 0, -FX_ONE) };
    assert!(sphere.hit(&ray, 66, FX_INFINITY).is_none());
}

#[test]
fn test_zero_direction_never_hits() {
    // A degenerate ray direction has no valid intersection parameter.
    let sphere = Sphere { center: Vec3::new(0, 0, -FX_ONE), radius: FX_ONE, material: gray() };
    let ray = Ray { origin: Vec3::zero(), direction: Vec3::zero() };
    assert!(sphere.hit(&ray, 66, FX_INFINITY).is_none());
}

#[test]
fn test_empty_scene_misses() {
    let world = HittablesList::new();
    let ray = Ray { origin: Vec3::zero(), direction: Vec3::new(0, 0, -FX_ONE) };
    assert!(world.hit(&ray, 66, FX_INFINITY).is_none());
}

#[test]
fn test_camera_basis() {
    // Looking down the negative third axis from the origin gives the
    // canonical right-handed frame.
    let cam = Camera::new(
        Vec3::zero(),
        Vec3::new(0, 0, -FX_ONE),
        Vec3::unit_y(),
        FX_ONE,
        90 * FX_ONE,
        0,
        FX_ONE,
    );
    assert_eq!(cam.w, Vec3::unit_z());
    assert_eq!(cam.u, Vec3::unit_x());
    assert_eq!(cam.v, Vec3::unit_y());
    assert_eq!(cam.origin, Vec3::zero());
    assert_eq!(cam.lens_radius, 0);
}

#[test]
fn test_get_ray_pinhole_origin() {
    // With a zero aperture the lens offset vanishes: every primary ray
    // starts at the eye.
    let cam = Camera::new(
        Vec3::zero(),
        Vec3::new(0, 0, -FX_ONE),
        Vec3::unit_y(),
        FX_ONE,
        90 * FX_ONE,
        0,
        FX_ONE,
    );
    let mut rng = get_rand_generator(3);
    for _ in 0..8 {
        let ray = cam.get_ray(FX_ONE / 2, FX_ONE / 2, &mut rng);
        assert_eq!(ray.origin, Vec3::zero());
    }
}
