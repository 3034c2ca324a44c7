//! Rays, intersection records, primitives, the scene aggregate, and the
//! camera.
//!
//! A sphere intersection solves the half-b form of the quadratic
//! `|O + tD - C|^2 = r^2`; the discriminant is kept unscaled (in units
//! of `FX_ONE` squared) so the computation is exact.  The aggregate
//! returns the closest valid hit, and its contract pins that down:
//! the result is some member's solution, and no member solves to a
//! strictly smaller ray parameter.

use vstd::prelude::*;

use crate::materials::MaterialKind;
use crate::math::{
    div_t, div_trunc_i128, fx_div, fx_mul, fx_sub, isqrt_i128, lemma_sqrt_floor, mul_fx, sat,
    sat_i128, sqrt_floor, sub_fx, FX_ONE,
};
use crate::vec3::{
    add_spec, cross_spec, div_spec, dot_spec, mag2_spec, neg_spec, scale_spec, sub_spec,
    unit_spec, Vec3,
};

verus! {

/// A position in space.
pub type Point = Vec3;

/// A color with components nominally in `[0, FX_ONE]`.
pub type Color = Vec3;

/// A ray: origin plus direction, not necessarily unit length.
#[derive(Clone, Copy, Debug)]
pub struct Ray {
    pub origin: Point,
    pub direction: Vec3,
}

/// The point a ray reaches at parameter `t`.
pub open spec fn at_spec(r: Ray, t: int) -> Vec3 {
    add_spec(r.origin, scale_spec(r.direction, t))
}

impl Ray {
    /// The point this ray reaches at parameter `t`.
    pub fn at(&self, t: i64) -> (p: Point)
        ensures
            p == at_spec(*self, t as int),
    {
        self.origin.add(self.direction.scale(t))
    }
}

/// Whether a ray approaches a surface from the side its outward normal
/// points to.
pub open spec fn front_face_spec(r: Ray, outward: Vec3) -> bool {
    dot_spec(r.direction, outward) < 0
}

/// The stored normal: the outward normal, flipped where the ray comes
/// from inside, so that it always faces the incoming ray.
pub open spec fn oriented_normal_spec(r: Ray, outward: Vec3) -> Vec3 {
    if front_face_spec(r, outward) {
        outward
    } else {
        neg_spec(outward)
    }
}

/// A successful intersection: where, at which parameter, with which
/// orientation, and under which material.
#[derive(Clone, Copy, Debug)]
pub struct HitRecord {
    pub position: Point,
    pub normal: Vec3,
    pub t: i64,
    pub front_face: bool,
    pub material: MaterialKind,
}

/// The record built from a position, parameter, ray, outward normal and
/// material.
pub open spec fn make_record_spec(
    position: Point,
    t: int,
    r: Ray,
    outward: Vec3,
    material: MaterialKind,
) -> HitRecord {
    HitRecord {
        position,
        normal: oriented_normal_spec(r, outward),
        t: t as i64,
        front_face: front_face_spec(r, outward),
        material,
    }
}

impl HitRecord {
    /// Build a record, orienting the normal against the incoming ray.
    pub fn new(
        position: Point,
        t: i64,
        ray: &Ray,
        outward_normal: Vec3,
        material: MaterialKind,
    ) -> (rec: HitRecord)
        ensures
            rec == make_record_spec(position, t as int, *ray, outward_normal, material),
    {
        let front_face = ray.direction.dot(outward_normal) < 0;
        let normal = if front_face {
            outward_normal
        } else {
            outward_normal.neg()
        };
        HitRecord { position, t, front_face, normal, material }
    }

    /// Re-orient this record against a ray and a fresh outward normal.
    pub fn set_normal(self, ray: &Ray, outward_normal: Vec3) -> (rec: HitRecord)
        ensures
            rec == make_record_spec(self.position, self.t as int, *ray, outward_normal, self.material),
    {
        let front_face = ray.direction.dot(outward_normal) < 0;
        let normal = if front_face {
            outward_normal
        } else {
            outward_normal.neg()
        };
        HitRecord {
            position: self.position,
            t: self.t,
            front_face,
            normal,
            material: self.material,
        }
    }
}

/// Anything that can report the nearest valid intersection of a ray
/// within an open parameter interval.
pub trait Hit {
    fn hit(&self, ray: &Ray, t_min: i64, t_max: i64) -> Option<HitRecord>;
}

/// A sphere; a negative radius is allowed and models an inverted
/// (hollow) shell, since the radius's sign flips the outward normal.
#[derive(Clone, Copy, Debug)]
pub struct Sphere {
    pub center: Point,
    pub radius: i64,
    pub material: MaterialKind,
}

/// The origin-to-center offset `O - C`.
pub open spec fn oc_spec(s: Sphere, r: Ray) -> Vec3 {
    sub_spec(r.origin, s.center)
}

/// The quadratic coefficient `a = |D|^2`.
pub open spec fn sphere_a(s: Sphere, r: Ray) -> int {
    mag2_spec(r.direction)
}

/// The half linear coefficient `D . (O - C)`.
pub open spec fn sphere_half_b(s: Sphere, r: Ray) -> int {
    dot_spec(r.direction, oc_spec(s, r))
}

/// The constant coefficient `|O - C|^2 - r^2`.
pub open spec fn sphere_c(s: Sphere, r: Ray) -> int {
    fx_sub(mag2_spec(oc_spec(s, r)), fx_mul(s.radius as int, s.radius as int))
}

/// The discriminant `half_b^2 - a * c`, unscaled (units of
/// `FX_ONE` squared).
pub open spec fn sphere_disc(s: Sphere, r: Ray) -> int {
    sphere_half_b(s, r) * sphere_half_b(s, r) - sphere_a(s, r) * sphere_c(s, r)
}

/// The nearer root `(-half_b - sqrt(disc)) / a`.
pub open spec fn sphere_t1(s: Sphere, r: Ray) -> int {
    sat(
        div_t(
            (0 - sphere_half_b(s, r) - sqrt_floor(sphere_disc(s, r))) * (FX_ONE as int),
            sphere_a(s, r),
        ),
    )
}

/// The farther root `(-half_b + sqrt(disc)) / a`.
pub open spec fn sphere_t2(s: Sphere, r: Ray) -> int {
    sat(
        div_t(
            (0 - sphere_half_b(s, r) + sqrt_floor(sphere_disc(s, r))) * (FX_ONE as int),
            sphere_a(s, r),
        ),
    )
}

/// The ray parameter at which a sphere is hit within the open interval
/// `(tmin, tmax)`: the nearer root where valid, else the farther root,
/// else nothing.  A degenerate direction (`a <= 0`) never hits, and a
/// strictly positive discriminant is demanded: an exactly tangent ray
/// counts as a miss.  That choice also keeps a zero-radius shell,
/// which a tangent ray would graze at a point with no well-defined
/// outward normal, from ever reporting a hit.
pub open spec fn sphere_solution(s: Sphere, r: Ray, tmin: int, tmax: int) -> Option<int> {
    if sphere_a(s, r) <= 0 || sphere_disc(s, r) <= 0 {
        None
    } else if tmin < sphere_t1(s, r) < tmax {
        Some(sphere_t1(s, r))
    } else if tmin < sphere_t2(s, r) < tmax {
        Some(sphere_t2(s, r))
    } else {
        None
    }
}

/// The outward normal of a sphere at a surface point.
pub open spec fn sphere_outward_normal(s: Sphere, p: Vec3) -> Vec3 {
    div_spec(sub_spec(p, s.center), s.radius as int)
}

/// The record a sphere produces for a hit at parameter `t`.
pub open spec fn sphere_record_spec(s: Sphere, r: Ray, t: int) -> HitRecord {
    make_record_spec(
        at_spec(r, t),
        t,
        r,
        sphere_outward_normal(s, at_spec(r, t)),
        s.material,
    )
}

/// What a sphere's `hit` returns.
pub open spec fn sphere_hit_spec(s: Sphere, r: Ray, tmin: int, tmax: int) -> Option<HitRecord> {
    match sphere_solution(s, r, tmin, tmax) {
        None => None,
        Some(t) => Some(sphere_record_spec(s, r, t)),
    }
}

/// Products of values within the saturation range stay far inside
/// `i128`.
proof fn lemma_mul_sat_fits(a: int, b: int)
    by (nonlinear_arith)
    requires
        -0x4000_0000_0000_0000 <= a <= 0x4000_0000_0000_0000,
        -0x4000_0000_0000_0000 <= b <= 0x4000_0000_0000_0000,
    ensures
        -0x1000_0000_0000_0000_0000_0000_0000_0000 <= a * b
            <= 0x1000_0000_0000_0000_0000_0000_0000_0000,
{
}

/// A square root of a value below `2^125` lies below `2^63`.
proof fn lemma_root_small(n: int, r: int)
    by (nonlinear_arith)
    requires
        0 <= r,
        r * r <= n,
        n <= 0x2000_0000_0000_0000_0000_0000_0000_0000,
    ensures
        r < 0x8000_0000_0000_0000,
{
}

impl Sphere {
    /// Build the hit record for a solution `t`.
    fn record_at(&self, ray: &Ray, t: i64) -> (rec: HitRecord)
        ensures
            rec == sphere_record_spec(*self, *ray, t as int),
    {
        let position = ray.at(t);
        let outward_normal = position.sub(self.center).div(self.radius);
        HitRecord::new(position, t, ray, outward_normal, self.material)
    }
}

impl Hit for Sphere {
    /// The nearest valid intersection, exactly as `sphere_hit_spec`
    /// says.
    fn hit(&self, ray: &Ray, t_min: i64, t_max: i64) -> (res: Option<HitRecord>)
        ensures
            res == sphere_hit_spec(*self, *ray, t_min as int, t_max as int),
    {
        let a = ray.direction.magnitude_squared();
        let o_to_c = ray.origin.sub(self.center);
        let half_b = ray.direction.dot(o_to_c);
        let c = sub_fx(o_to_c.magnitude_squared(), mul_fx(self.radius, self.radius));
        if a <= 0 {
            return None;
        }
        proof {
            lemma_mul_sat_fits(half_b as int, half_b as int);
            lemma_mul_sat_fits(a as int, c as int);
        }
        let discriminant: i128 = (half_b as i128) * (half_b as i128) - (a as i128) * (c as i128);
        if discriminant <= 0 {
            return None;
        }
        let root: i128 = isqrt_i128(discriminant);
        proof {
            lemma_sqrt_floor(discriminant as int);
            lemma_root_small(discriminant as int, root as int);
        }
        let num1: i128 = (-(half_b as i128) - root) * (FX_ONE as i128);
        let t1 = sat_i128(div_trunc_i128(num1, a as i128));
        if t1 < t_max && t1 > t_min {
            return Some(self.record_at(ray, t1));
        }
        let num2: i128 = (-(half_b as i128) + root) * (FX_ONE as i128);
        let t2 = sat_i128(div_trunc_i128(num2, a as i128));
        if t2 < t_max && t2 > t_min {
            return Some(self.record_at(ray, t2));
        }
        None
    }
}

/// A triangle; a further primitive shape (only `Sphere` participates in
/// intersection queries so far).
#[derive(Clone, Copy, Debug)]
pub struct Triangle {
    pub p1: Point,
    pub p3: Point,
    pub p2: Point,
}

/// A plane; a further primitive shape.
#[derive(Clone, Copy, Debug)]
pub struct Plane {
    pub p1: Point,
    pub normal: Vec3,
}

impl Hit for Plane {
    /// A plane never reports an intersection.
    fn hit(&self, ray: &Ray, t_min: i64, t_max: i64) -> (res: Option<HitRecord>)
        ensures
            res is None,
    {
        None
    }
}

/// An axis-aligned cube; a further primitive shape.
#[derive(Clone, Copy, Debug)]
pub struct Cube {
    pub center: Point,
    pub width: i64,
    pub material: MaterialKind,
}

/// The scene: an ordered collection of spheres, queried as one
/// aggregate.
#[derive(Debug)]
pub struct HittablesList {
    pub objects: Vec<Sphere>,
}

/// The closest valid hit over a scene, folded member by member with
/// the shrinking upper bound the aggregate uses: each later member is
/// queried only below the best parameter found so far.
pub open spec fn closest_hit_spec(objs: Seq<Sphere>, ray: Ray, tmin: int, tmax: int) -> Option<
    HitRecord,
>
    decreases objs.len(),
{
    if objs.len() == 0 {
        None
    } else {
        let prev = closest_hit_spec(objs.drop_last(), ray, tmin, tmax);
        let bound = match prev {
            Some(rec) => rec.t as int,
            None => tmax,
        };
        match sphere_hit_spec(objs.last(), ray, tmin, bound) {
            Some(rec2) => Some(rec2),
            None => prev,
        }
    }
}

/// What the aggregate's `hit` guarantees: a miss means no member
/// solves in the interval; a hit is some member's solution, and no
/// member solves strictly closer.  Insertion order cannot influence
/// which parameter comes back.
pub open spec fn list_hit_post(
    objs: Seq<Sphere>,
    ray: Ray,
    tmin: int,
    tmax: int,
    res: Option<HitRecord>,
) -> bool {
    match res {
        None => forall|i: int|
            0 <= i < objs.len() ==> #[trigger] sphere_solution(objs[i], ray, tmin, tmax) is None,
        Some(rec) => {
            &&& tmin < rec.t < tmax
            &&& exists|i: int|
                0 <= i < objs.len() && #[trigger] sphere_solution(objs[i], ray, tmin, tmax)
                    == Some(rec.t as int) && rec == sphere_record_spec(objs[i], ray, rec.t as int)
            &&& forall|i: int|
                0 <= i < objs.len() ==> (match #[trigger] sphere_solution(objs[i], ray, tmin, tmax) {
                    Some(t) => rec.t <= t,
                    None => true,
                })
        },
    }
}

/// Narrowing the upper bound keeps a solution that still fits and
/// discards any other.
pub proof fn lemma_solution_narrow(s: Sphere, ray: Ray, tmin: int, tmax1: int, tmax2: int)
    requires
        tmax2 <= tmax1,
    ensures
        sphere_solution(s, ray, tmin, tmax2) == (match sphere_solution(s, ray, tmin, tmax1) {
            Some(t) => if t < tmax2 {
                Some(t)
            } else {
                None
            },
            None => None,
        }),
{
    if sphere_a(s, ray) > 0 && sphere_disc(s, ray) > 0 {
        lemma_sqrt_floor(sphere_disc(s, ray));
        let hb = sphere_half_b(s, ray);
        let rt = sqrt_floor(sphere_disc(s, ray));
        let a = sphere_a(s, ray);
        crate::math::lemma_div_t_mono(
            (0 - hb - rt) * (FX_ONE as int),
            (0 - hb + rt) * (FX_ONE as int),
            a,
        );
        assert(sphere_t1(s, ray) <= sphere_t2(s, ray));
    }
}

impl HittablesList {
    /// Every material in the scene is well formed.
    pub open spec fn wf(&self) -> bool {
        forall|i: int|
            0 <= i < self.objects@.len() ==> (#[trigger] self.objects@[i]).material.wf()
    }

    /// An empty scene.
    pub fn new() -> (r: HittablesList)
        ensures
            r.objects@ =~= Seq::<Sphere>::empty(),
    {
        HittablesList { objects: Vec::new() }
    }

    /// Add a sphere at the end.
    pub fn push(&mut self, s: Sphere)
        ensures
            final(self).objects@ == old(self).objects@.push(s),
    {
        self.objects.push(s);
    }

    /// The number of spheres.
    pub fn len(&self) -> (n: usize)
        ensures
            n == self.objects@.len(),
    {
        self.objects.len()
    }
}

impl Hit for HittablesList {
    /// The closest valid intersection over all members, tracking the
    /// closest parameter so far as the shrinking upper bound of later
    /// queries.
    fn hit(&self, ray: &Ray, t_min: i64, t_max: i64) -> (res: Option<HitRecord>)
        ensures
            res == closest_hit_spec(self.objects@, *ray, t_min as int, t_max as int),
            list_hit_post(self.objects@, *ray, t_min as int, t_max as int, res),
    {
        let mut record: Option<HitRecord> = None;
        let mut closest_so_far = t_max;
        let n = self.objects.len();
        let mut idx: usize = 0;
        while idx < n
            invariant
                n == self.objects@.len(),
                0 <= idx <= n,
                record == closest_hit_spec(
                    self.objects@.take(idx as int),
                    *ray,
                    t_min as int,
                    t_max as int,
                ),
                match record {
                    None => {
                        &&& closest_so_far == t_max
                        &&& forall|j: int|
                            0 <= j < idx ==> #[trigger] sphere_solution(
                                self.objects@[j],
                                *ray,
                                t_min as int,
                                t_max as int,
                            ) is None
                    },
                    Some(rec) => {
                        &&& t_min < rec.t < t_max
                        &&& closest_so_far == rec.t
                        &&& exists|j: int|
                            0 <= j < idx && #[trigger] sphere_solution(
                                self.objects@[j],
                                *ray,
                                t_min as int,
                                t_max as int,
                            ) == Some(rec.t as int) && rec == sphere_record_spec(
                                self.objects@[j],
                                *ray,
                                rec.t as int,
                            )
                        &&& forall|j: int|
                            0 <= j < idx ==> (match #[trigger] sphere_solution(
                                self.objects@[j],
                                *ray,
                                t_min as int,
                                t_max as int,
                            ) {
                                Some(t) => rec.t <= t,
                                None => true,
                            })
                    },
                },
            decreases n - idx,
        {
            let object = self.objects[idx];
            let tmp = object.hit(ray, t_min, closest_so_far);
            proof {
                lemma_solution_narrow(
                    object,
                    *ray,
                    t_min as int,
                    t_max as int,
                    closest_so_far as int,
                );
                assert(self.objects@.take(idx + 1).drop_last() =~= self.objects@.take(
                    idx as int,
                ));
                assert(self.objects@.take(idx + 1).last() == self.objects@[idx as int]);
            }
            if let Some(r2) = tmp {
                closest_so_far = r2.t;
                record = Some(r2);
            }
            idx = idx + 1;
        }
        proof {
            assert(self.objects@.take(n as int) =~= self.objects@);
        }
        record
    }
}

/// Two scenes holding the same spheres, in whatever order, agree on
/// the closest hit parameter: closest-hit selection is independent of
/// insertion order.
pub proof fn lemma_closest_hit_order_independent(
    objs1: Seq<Sphere>,
    objs2: Seq<Sphere>,
    ray: Ray,
    tmin: int,
    tmax: int,
    res1: Option<HitRecord>,
    res2: Option<HitRecord>,
)
    requires
        forall|s: Sphere| objs1.contains(s) <==> objs2.contains(s),
        list_hit_post(objs1, ray, tmin, tmax, res1),
        list_hit_post(objs2, ray, tmin, tmax, res2),
    ensures
        res1 is Some <==> res2 is Some,
        (res1 is Some && res2 is Some) ==> res1->Some_0.t == res2->Some_0.t,
{
    match res1 {
        Some(rec1) => {
            let i = choose|i: int|
                0 <= i < objs1.len() && #[trigger] sphere_solution(objs1[i], ray, tmin, tmax)
                    == Some(rec1.t as int) && rec1 == sphere_record_spec(
                    objs1[i],
                    ray,
                    rec1.t as int,
                );
            assert(objs1.contains(objs1[i]));
            let j = choose|j: int| 0 <= j < objs2.len() && objs2[j] == objs1[i];
            assert(sphere_solution(objs2[j], ray, tmin, tmax) == Some(rec1.t as int));
            match res2 {
                Some(rec2) => {
                    assert(rec2.t <= rec1.t);
                    let k = choose|k: int|
                        0 <= k < objs2.len() && #[trigger] sphere_solution(
                            objs2[k],
                            ray,
                            tmin,
                            tmax,
                        ) == Some(rec2.t as int) && rec2 == sphere_record_spec(
                            objs2[k],
                            ray,
                            rec2.t as int,
                        );
                    assert(objs2.contains(objs2[k]));
                    let l = choose|l: int| 0 <= l < objs1.len() && objs1[l] == objs2[k];
                    assert(sphere_solution(objs1[l], ray, tmin, tmax) == Some(rec2.t as int));
                    assert(rec1.t <= rec2.t);
                },
                None => {
                    assert(sphere_solution(objs2[j], ray, tmin, tmax) is None);
                },
            }
        },
        None => {
            match res2 {
                Some(rec2) => {
                    let k = choose|k: int|
                        0 <= k < objs2.len() && #[trigger] sphere_solution(
                            objs2[k],
                            ray,
                            tmin,
                            tmax,
                        ) == Some(rec2.t as int) && rec2 == sphere_record_spec(
                            objs2[k],
                            ray,
                            rec2.t as int,
                        );
                    assert(objs2.contains(objs2[k]));
                    let l = choose|l: int| 0 <= l < objs1.len() && objs1[l] == objs2[k];
                    assert(sphere_solution(objs1[l], ray, tmin, tmax) is None);
                },
                None => {},
            }
        },
    }
}

/// The viewport half-height from the vertical field of view (degrees).
pub open spec fn camera_half_height(vertical_fov: int) -> int {
    crate::math::tan_spec(
        fx_div(crate::math::degrees_to_radians_spec(vertical_fov), 2 * (FX_ONE as int)),
    )
}

/// The basis vector pointing from the target back to the eye.
pub open spec fn camera_w(lookfrom: Vec3, lookat: Vec3) -> Vec3 {
    unit_spec(sub_spec(lookfrom, lookat))
}

/// The basis vector spanning the image plane horizontally.
pub open spec fn camera_u(lookfrom: Vec3, lookat: Vec3, vup: Vec3) -> Vec3 {
    unit_spec(cross_spec(vup, camera_w(lookfrom, lookat)))
}

/// The basis vector spanning the image plane vertically.
pub open spec fn camera_v(lookfrom: Vec3, lookat: Vec3, vup: Vec3) -> Vec3 {
    cross_spec(camera_w(lookfrom, lookat), camera_u(lookfrom, lookat, vup))
}

/// The camera a given configuration derives: a right-handed
/// orthonormal-by-construction frame, viewport extents scaled to the
/// focus plane, and the lens radius as half the aperture.
pub open spec fn camera_spec(
    lookfrom: Vec3,
    lookat: Vec3,
    vup: Vec3,
    aspect_ratio: int,
    vertical_fov: int,
    aperture: int,
    focus_dist: int,
) -> Camera {
    let half_height = camera_half_height(vertical_fov);
    let half_width = fx_mul(aspect_ratio, half_height);
    let w = camera_w(lookfrom, lookat);
    let u = camera_u(lookfrom, lookat, vup);
    let v = camera_v(lookfrom, lookat, vup);
    Camera {
        origin: lookfrom,
        lower_left_corner: sub_spec(
            sub_spec(
                sub_spec(lookfrom, scale_spec(u, fx_mul(focus_dist, half_width))),
                scale_spec(v, fx_mul(focus_dist, half_height)),
            ),
            scale_spec(w, focus_dist),
        ),
        horizontal: scale_spec(
            scale_spec(scale_spec(u, focus_dist), half_width),
            2 * (FX_ONE as int),
        ),
        vertical: scale_spec(
            scale_spec(scale_spec(v, focus_dist), half_height),
            2 * (FX_ONE as int),
        ),
        u,
        v,
        w,
        lens_radius: fx_div(aperture, 2 * (FX_ONE as int)) as i64,
    }
}

/// Maps normalized image-plane coordinates to primary rays.
#[derive(Clone, Copy, Debug)]
pub struct Camera {
    pub origin: Point,
    pub lower_left_corner: Point,
    pub horizontal: Vec3,
    pub vertical: Vec3,
    pub u: Vec3,
    pub v: Vec3,
    pub w: Vec3,
    pub lens_radius: i64,
}

/// The primary ray for image-plane coordinates `(u, v)` and a lens-disk
/// sample `rd`: both the origin and the target are offset by the lens
/// sample projected through the camera basis, which produces depth of
/// field.
pub open spec fn get_ray_spec(cam: Camera, u: int, v: int, rd: Vec3) -> Ray {
    let rds = scale_spec(rd, cam.lens_radius as int);
    let offset = add_spec(scale_spec(cam.u, rds.x as int), scale_spec(cam.v, rds.y as int));
    Ray {
        origin: add_spec(cam.origin, offset),
        direction: sub_spec(
            sub_spec(
                add_spec(
                    add_spec(cam.lower_left_corner, scale_spec(cam.horizontal, u)),
                    scale_spec(cam.vertical, v),
                ),
                cam.origin,
            ),
            offset,
        ),
    }
}

/// A sample on the unit lens disk (third component zero), found by
/// rejection with a deterministic fallback at the disk's center.
fn random_in_unit_disk(rng: &mut rand::rngs::StdRng) -> (p: Vec3)
    ensures
        p.z == 0,
        mag2_spec(p) < FX_ONE,
{
    let mut tries: u32 = 0;
    while tries < 64
        invariant
            tries <= 64,
        decreases 64 - tries,
    {
        let p = Vec3::new(
            crate::rng::random_num_rng(rng, -FX_ONE, FX_ONE),
            crate::rng::random_num_rng(rng, -FX_ONE, FX_ONE),
            0,
        );
        if p.magnitude_squared() < FX_ONE {
            return p;
        }
        tries = tries + 1;
    }
    Vec3::zero()
}

impl Camera {
    /// Derive a camera from eye position, look-at target, up vector,
    /// aspect ratio, vertical field of view in degrees, aperture, and
    /// focus distance.
    pub fn new(
        lookfrom: Point,
        lookat: Point,
        vup: Vec3,
        aspect_ratio: i64,
        vertical_fov: i64,
        aperture: i64,
        focus_dist: i64,
    ) -> (cam: Camera)
        ensures
            cam == camera_spec(
                lookfrom,
                lookat,
                vup,
                aspect_ratio as int,
                vertical_fov as int,
                aperture as int,
                focus_dist as int,
            ),
    {
        let theta = crate::math::degrees_to_radians(vertical_fov);
        let half_height = crate::math::tan_fx(crate::math::div_fx(theta, 2 * FX_ONE));
        let half_width = mul_fx(aspect_ratio, half_height);

        let w = lookfrom.sub(lookat).unit_vector();
        let u = vup.cross(w).unit_vector();
        let v = w.cross(u);

        let lower_left_corner = lookfrom
            .sub(u.scale(mul_fx(focus_dist, half_width)))
            .sub(v.scale(mul_fx(focus_dist, half_height)))
            .sub(w.scale(focus_dist));

        let horizontal = u.scale(focus_dist).scale(half_width).scale(2 * FX_ONE);
        let vertical = v.scale(focus_dist).scale(half_height).scale(2 * FX_ONE);

        let lens_radius = crate::math::div_fx(aperture, 2 * FX_ONE);
        Camera { origin: lookfrom, horizontal, vertical, lower_left_corner, u, v, w, lens_radius }
    }

    /// The primary ray for normalized image-plane coordinates
    /// `(u, v)`, with a fresh lens-disk sample for depth of field.
    pub fn get_ray(&self, u: i64, v: i64, rng: &mut rand::rngs::StdRng) -> (r: Ray)
        ensures
            exists|rd: Vec3|
                (rd.z == 0 && mag2_spec(rd) < FX_ONE) && r == #[trigger] get_ray_spec(
                    *self,
                    u as int,
                    v as int,
                    rd,
                ),
    {
        let rd = random_in_unit_disk(rng);
        let rds = rd.scale(self.lens_radius);
        let offset = self.u.scale(rds.x).add(self.v.scale(rds.y));
        let r = Ray {
            origin: self.origin.add(offset),
            direction: self
                .lower_left_corner
                .add(self.horizontal.scale(u))
                .add(self.vertical.scale(v))
                .sub(self.origin)
                .sub(offset),
        };
        proof {
            assert(r == get_ray_spec(*self, u as int, v as int, rd));
        }
        r
    }
}

} // verus!
