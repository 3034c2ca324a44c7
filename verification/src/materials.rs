//! The material scattering model.
//!
//! A material, given an incoming ray and a hit record, either produces
//! a scattered ray with an attenuation color, or absorbs the ray.
//! Three variants: diffuse (Lambertian), specular with roughness
//! (metal), and refractive (dielectric).  The dielectric's total
//! internal reflection branch is deterministic: no random draw is
//! involved when refraction is impossible.

use vstd::prelude::*;

use crate::math::{
    fx_add, fx_div, fx_mul, fx_sqrt, fx_sub, add_fx, div_fx, mul_fx, sqrt_fx, sub_fx,
    FX_ONE,
};
use crate::rng::random_num;
use crate::types::{Color, HitRecord, Ray};
use crate::vec3::{
    add_spec, dot_spec, mag2_spec, magnitude_spec, neg_spec, scale_spec, sub_spec, unit_spec, v3,
    random_vec3_rng, Vec3,
};

verus! {

/// A color whose components all lie in `[0, 1]`.
pub open spec fn color_unit(c: Color) -> bool {
    &&& 0 <= c.x <= FX_ONE
    &&& 0 <= c.y <= FX_ONE
    &&& 0 <= c.z <= FX_ONE
}

/// The mirror reflection of `vec` about `normal`:
/// `v - 2 (v . n) n`.
pub open spec fn reflect_spec(vec: Vec3, normal: Vec3) -> Vec3 {
    sub_spec(vec, scale_spec(scale_spec(normal, dot_spec(vec, normal)), 2 * (FX_ONE as int)))
}

/// The mirror reflection of `vec` about `normal`.
pub fn reflect(vec: Vec3, normal: Vec3) -> (r: Vec3)
    ensures
        r == reflect_spec(vec, normal),
{
    let b = normal.scale(vec.dot(normal));
    vec.sub(b.scale(2 * FX_ONE))
}

/// Snell refraction of the unit vector `uv` at a surface with normal
/// `normal`, via the perpendicular/parallel decomposition.  Where the
/// parallel part's squared magnitude exceeds one (a grazing or
/// degenerate input), the square root of the negative remainder is
/// taken as zero rather than producing an invalid value.
pub open spec fn refract_spec(uv: Vec3, normal: Vec3, etai_over_etat: int) -> Vec3 {
    let cos_theta = fx_sub(0, dot_spec(uv, normal));
    let r_out_parallel = scale_spec(add_spec(uv, scale_spec(normal, cos_theta)), etai_over_etat);
    let r_out_perp = scale_spec(
        normal,
        fx_sub(0, fx_sqrt(fx_sub(FX_ONE as int, mag2_spec(r_out_parallel)))),
    );
    add_spec(r_out_parallel, r_out_perp)
}

/// Snell refraction of the unit vector `uv` about `normal`.
pub fn refract(uv: Vec3, normal: Vec3, etai_over_etat: i64) -> (r: Vec3)
    ensures
        r == refract_spec(uv, normal, etai_over_etat as int),
{
    let cos_theta = sub_fx(0, uv.dot(normal));
    let r_out_parallel = uv.add(normal.scale(cos_theta)).scale(etai_over_etat);
    let r_out_perp = normal.scale(sub_fx(0, sqrt_fx(sub_fx(FX_ONE, r_out_parallel.magnitude_squared()))));
    r_out_parallel.add(r_out_perp)
}

/// Schlick's approximation of the Fresnel reflectance.
pub open spec fn schlick_spec(cosine: int, ref_idx: int) -> int {
    let r0 = fx_div(fx_sub(FX_ONE as int, ref_idx), fx_add(FX_ONE as int, ref_idx));
    let r0sq = fx_mul(r0, r0);
    let m = fx_sub(FX_ONE as int, cosine);
    let m2 = fx_mul(m, m);
    let m4 = fx_mul(m2, m2);
    let m5 = fx_mul(m4, m);
    fx_add(r0sq, fx_mul(fx_sub(FX_ONE as int, r0sq), m5))
}

/// Schlick's approximation of the Fresnel reflectance.
pub fn schlick(cosine: i64, ref_idx: i64) -> (r: i64)
    ensures
        r == schlick_spec(cosine as int, ref_idx as int),
{
    let r0 = div_fx(sub_fx(FX_ONE, ref_idx), add_fx(FX_ONE, ref_idx));
    let r0sq = mul_fx(r0, r0);
    let m = sub_fx(FX_ONE, cosine);
    let m2 = mul_fx(m, m);
    let m4 = mul_fx(m2, m2);
    let m5 = mul_fx(m4, m);
    add_fx(r0sq, mul_fx(sub_fx(FX_ONE, r0sq), m5))
}

/// A uniform sample strictly inside the unit sphere, found by
/// rejection.
pub fn random_in_unit_sphere(rng: &mut rand::rngs::StdRng) -> (r: Vec3)
    ensures
        -FX_ONE <= r.x < FX_ONE,
        -FX_ONE <= r.y < FX_ONE,
        -FX_ONE <= r.z < FX_ONE,
        mag2_spec(r) < FX_ONE,
{
    let mut tries: u32 = 0;
    while tries < 64
        invariant
            tries <= 64,
        decreases 64 - tries,
    {
        let vec = random_vec3_rng(rng, -FX_ONE, FX_ONE);
        if vec.magnitude_squared() < FX_ONE {
            return vec;
        }
        tries = tries + 1;
    }
    Vec3::zero()
}

/// A random direction of (approximately) unit length: a sample from
/// the unit sphere of magnitude at least one half, normalized.
/// Shorter samples are rejected along with the out-of-sphere ones:
/// normalizing a near-degenerate sample would lose the unit length to
/// truncation.
pub fn random_unit_vector(rng: &mut rand::rngs::StdRng) -> (r: Vec3)
    ensures
        exists|w: Vec3| 16384 <= #[trigger] mag2_spec(w) < FX_ONE && r == unit_spec(w),
        FX_ONE - 4 <= magnitude_spec(r) <= FX_ONE + 9,
{
    let mut tries: u32 = 0;
    while tries < 64
        invariant
            tries <= 64,
        decreases 64 - tries,
    {
        let w = random_in_unit_sphere(rng);
        if w.magnitude_squared() >= 16384 {
            let r = w.unit_vector();
            proof {
                lemma_floored_sample_normalizes(w);
            }
            return r;
        }
        tries = tries + 1;
    }
    let w = Vec3::new(32768, 0, 0);
    let r = w.unit_vector();
    proof {
        crate::math::lemma_div_t_exact(32768int * 32768, 65536, 16384);
        assert(mag2_spec(w) == 16384);
        lemma_floored_sample_normalizes(w);
    }
    r
}

/// A unit-sphere sample of squared magnitude at least one quarter has
/// magnitude at least one half, so normalizing it lands within the
/// narrow band around unit length.
proof fn lemma_floored_sample_normalizes(w: Vec3)
    requires
        crate::math::abs_int(w.x as int) <= FX_ONE,
        crate::math::abs_int(w.y as int) <= FX_ONE,
        crate::math::abs_int(w.z as int) <= FX_ONE,
        16384 <= mag2_spec(w),
    ensures
        magnitude_spec(w) >= 32768,
        FX_ONE - 4 <= magnitude_spec(unit_spec(w)) <= FX_ONE + 9,
{
    crate::math::lemma_sqrt_floor(mag2_spec(w) * (FX_ONE as int));
    let m = crate::math::sqrt_floor(mag2_spec(w) * (FX_ONE as int));
    assert(m >= 32768) by (nonlinear_arith)
        requires
            m >= 0,
            mag2_spec(w) * 65536 < (m + 1) * (m + 1),
            mag2_spec(w) >= 16384,
    ;
    crate::vec3::lemma_unit_vector_magnitude(w);
}

/// A uniform sample from the unit sphere, flipped into the hemisphere
/// of `normal`.
pub fn random_in_hemisphere(normal: Vec3, rng: &mut rand::rngs::StdRng) -> (r: Vec3)
    ensures
        dot_spec(r, normal) >= 0,
        mag2_spec(r) < FX_ONE,
{
    let in_unit_sphere = random_in_unit_sphere(rng);
    if in_unit_sphere.dot(normal) > 0 {
        in_unit_sphere
    } else {
        proof {
            lemma_dot_neg(in_unit_sphere, normal);
            lemma_mag2_neg(in_unit_sphere);
        }
        in_unit_sphere.neg()
    }
}

/// Negating a vector with components in the fixed-point range keeps
/// its squared magnitude.
proof fn lemma_mag2_neg(a: Vec3)
    requires
        crate::math::abs_int(a.x as int) <= crate::math::FX_MAX,
        crate::math::abs_int(a.y as int) <= crate::math::FX_MAX,
        crate::math::abs_int(a.z as int) <= crate::math::FX_MAX,
    ensures
        mag2_spec(neg_spec(a)) == mag2_spec(a),
{
    vstd::arithmetic::mul::lemma_mul_unary_negation(a.x as int, -(a.x as int));
    vstd::arithmetic::mul::lemma_mul_unary_negation(a.y as int, -(a.y as int));
    vstd::arithmetic::mul::lemma_mul_unary_negation(a.z as int, -(a.z as int));
    assert((-(a.x as int)) * (-(a.x as int)) == (a.x as int) * (a.x as int)) by (nonlinear_arith);
    assert((-(a.y as int)) * (-(a.y as int)) == (a.y as int) * (a.y as int)) by (nonlinear_arith);
    assert((-(a.z as int)) * (-(a.z as int)) == (a.z as int) * (a.z as int)) by (nonlinear_arith);
}

/// Negating a vector with components in the fixed-point range negates
/// its dot products.
proof fn lemma_dot_neg(a: Vec3, b: Vec3)
    requires
        crate::math::abs_int(a.x as int) <= crate::math::FX_MAX,
        crate::math::abs_int(a.y as int) <= crate::math::FX_MAX,
        crate::math::abs_int(a.z as int) <= crate::math::FX_MAX,
    ensures
        dot_spec(neg_spec(a), b) == -dot_spec(a, b),
{
    vstd::arithmetic::mul::lemma_mul_unary_negation(a.x as int, b.x as int);
    vstd::arithmetic::mul::lemma_mul_unary_negation(a.y as int, b.y as int);
    vstd::arithmetic::mul::lemma_mul_unary_negation(a.z as int, b.z as int);
}

/// Whether the material at a hit absorbs the ray outright.  Only a
/// metal absorbs, exactly when the unperturbed mirror reflection of
/// the incoming direction fails to leave the surface; no randomness is
/// involved in the condition.
pub open spec fn absorbs_spec(ray: Ray, rec: HitRecord) -> bool {
    match rec.material {
        MaterialKind::Metal(m) => dot_spec(
            reflect_spec(unit_spec(ray.direction), rec.normal),
            rec.normal,
        ) <= 0,
        _ => false,
    }
}

/// The scattering capability: an incoming ray at a hit point yields
/// either an outgoing ray with an attenuation color, or nothing
/// (absorption).
pub trait Material {
    fn scatter(
        &self,
        ray_in: Ray,
        record: HitRecord,
        rng: &mut rand::rngs::StdRng,
    ) -> Option<(Ray, Color)>;
}

/// A diffuse surface with a base reflectance color.
#[derive(Clone, Copy, Debug)]
pub struct Lambertian {
    pub albedo: Color,
}

impl Lambertian {
    /// The albedo is a valid color.
    pub open spec fn wf(&self) -> bool {
        color_unit(self.albedo)
    }
}

impl Material for Lambertian {
    /// Always scatters: the outgoing direction is the surface normal
    /// offset by a random unit vector, and the attenuation is the
    /// albedo, which with a valid albedo never exceeds one in any
    /// component.
    fn scatter(
        &self,
        ray_in: Ray,
        record: HitRecord,
        rng: &mut rand::rngs::StdRng,
    ) -> (r: Option<(Ray, Color)>)
        ensures
            match r {
                Some((out, att)) => {
                    &&& att == self.albedo
                    &&& out.origin == record.position
                    &&& exists|d: Vec3|
                        (FX_ONE - 4 <= magnitude_spec(d) <= FX_ONE + 9) && (exists|w: Vec3|
                            16384 <= #[trigger] mag2_spec(w) < FX_ONE && d == unit_spec(w))
                            && out.direction == #[trigger] add_spec(record.normal, d)
                    &&& self.wf() ==> color_unit(att)
                },
                None => false,
            },
    {
        let d = random_unit_vector(rng);
        let scatter_direction = record.normal.add(d);
        let out = Ray { origin: record.position, direction: scatter_direction };
        proof {
            assert(out.direction == add_spec(record.normal, d));
        }
        Some((out, self.albedo))
    }
}

/// A specular surface with a base color and a roughness in `[0, 1]`.
#[derive(Clone, Copy, Debug)]
pub struct Metal {
    pub albedo: Color,
    pub fuzz: i64,
}

impl Metal {
    /// The roughness as specifications see it.
    pub open spec fn fuzz_spec(&self) -> int {
        self.fuzz as int
    }

    /// The roughness parameter.
    pub fn fuzz(&self) -> (f: i64)
        ensures
            f == self.fuzz_spec(),
    {
        self.fuzz
    }

    /// Build a metal, clamping the roughness into `[0, 1]`.
    pub fn new(albedo: Color, fuzz: i64) -> (m: Metal)
        ensures
            m.albedo == albedo,
            m.fuzz_spec() == crate::math::clamp_spec(fuzz as int, 0, FX_ONE as int),
    {
        Metal { albedo, fuzz: crate::math::clamp_num(fuzz, 0, FX_ONE) }
    }

    /// The albedo is a valid color and the roughness lies in `[0, 1]`.
    pub open spec fn wf(&self) -> bool {
        color_unit(self.albedo) && 0 <= self.fuzz_spec() <= FX_ONE
    }
}

impl Material for Metal {
    /// Reflects the (normalized) incoming direction about the normal
    /// and perturbs it by `fuzz` times a sample from the unit sphere;
    /// absorbs the ray where the unperturbed reflection does not leave
    /// the surface.  The attenuation is the albedo, which with a valid
    /// albedo never exceeds one in any component.
    fn scatter(
        &self,
        ray_in: Ray,
        record: HitRecord,
        rng: &mut rand::rngs::StdRng,
    ) -> (r: Option<(Ray, Color)>)
        ensures
            ({
                let refl = reflect_spec(unit_spec(ray_in.direction), record.normal);
                match r {
                    Some((out, att)) => {
                        &&& dot_spec(refl, record.normal) > 0
                        &&& att == self.albedo
                        &&& out.origin == record.position
                        &&& exists|s: Vec3|
                            mag2_spec(s) < FX_ONE && out.direction == #[trigger] add_spec(
                                refl,
                                scale_spec(s, self.fuzz_spec()),
                            )
                        &&& self.wf() ==> color_unit(att)
                    },
                    None => dot_spec(refl, record.normal) <= 0,
                }
            }),
    {
        let reflected = reflect(ray_in.direction.unit_vector(), record.normal);
        if reflected.dot(record.normal) > 0 {
            let s = random_in_unit_sphere(rng);
            let out = Ray {
                origin: record.position,
                direction: reflected.add(s.scale(self.fuzz)),
            };
            proof {
                assert(out.direction == add_spec(
                    reflect_spec(unit_spec(ray_in.direction), record.normal),
                    scale_spec(s, self.fuzz_spec()),
                ));
            }
            Some((out, self.albedo))
        } else {
            None
        }
    }
}

/// A refractive surface with a refractive index.
#[derive(Clone, Copy, Debug)]
pub struct Dielectric {
    pub refraction_index: i64,
}

/// The effective refraction ratio at a hit: inverted where the ray
/// comes from outside the surface.
pub open spec fn dielectric_eta_spec(d: Dielectric, record: HitRecord) -> int {
    if record.front_face {
        fx_div(FX_ONE as int, d.refraction_index as int)
    } else {
        d.refraction_index as int
    }
}

/// The cosine of the angle between the incoming unit direction and the
/// normal, capped at one.
pub open spec fn dielectric_cos_spec(ray_in: Ray, record: HitRecord) -> int {
    let c = fx_sub(0, dot_spec(unit_spec(ray_in.direction), record.normal));
    if c < FX_ONE {
        c
    } else {
        FX_ONE as int
    }
}

/// The sine derived from that cosine.
pub open spec fn dielectric_sin_spec(ray_in: Ray, record: HitRecord) -> int {
    fx_sqrt(
        fx_sub(
            FX_ONE as int,
            fx_mul(dielectric_cos_spec(ray_in, record), dielectric_cos_spec(ray_in, record)),
        ),
    )
}

/// Total internal reflection: `eta * sin_theta > 1` leaves no real
/// refraction angle.
pub open spec fn cannot_refract_spec(d: Dielectric, ray_in: Ray, record: HitRecord) -> bool {
    fx_mul(dielectric_eta_spec(d, record), dielectric_sin_spec(ray_in, record)) > FX_ONE
}

impl Dielectric {
    /// The refractive index is positive.
    pub open spec fn wf(&self) -> bool {
        self.refraction_index > 0
    }
}

impl Material for Dielectric {
    /// Always scatters with a neutral attenuation.  Where total
    /// internal reflection applies the outgoing direction is the
    /// mirror reflection, deterministically; otherwise the direction
    /// is the reflection or the Snell refraction, chosen by comparing
    /// a uniform draw with Schlick's reflectance approximation.
    fn scatter(
        &self,
        ray_in: Ray,
        record: HitRecord,
        rng: &mut rand::rngs::StdRng,
    ) -> (r: Option<(Ray, Color)>)
        ensures
            match r {
                Some((out, att)) => {
                    &&& att == v3(FX_ONE as int, FX_ONE as int, FX_ONE as int)
                    &&& color_unit(att)
                    &&& out.origin == record.position
                    &&& cannot_refract_spec(*self, ray_in, record) ==> out.direction
                        == reflect_spec(unit_spec(ray_in.direction), record.normal)
                    &&& out.direction == reflect_spec(unit_spec(ray_in.direction), record.normal)
                        || out.direction == refract_spec(
                        unit_spec(ray_in.direction),
                        record.normal,
                        dielectric_eta_spec(*self, record),
                    )
                },
                None => false,
            },
    {
        let etai_over_etat = if record.front_face {
            div_fx(FX_ONE, self.refraction_index)
        } else {
            self.refraction_index
        };
        let unit_direction = ray_in.direction.unit_vector();
        let neg_dot = sub_fx(0, unit_direction.dot(record.normal));
        let cos_theta = if neg_dot < FX_ONE {
            neg_dot
        } else {
            FX_ONE
        };
        let sin_theta = sqrt_fx(sub_fx(FX_ONE, mul_fx(cos_theta, cos_theta)));
        let next_direction = if mul_fx(etai_over_etat, sin_theta) > FX_ONE {
            reflect(unit_direction, record.normal)
        } else {
            let reflect_prob = schlick(cos_theta, etai_over_etat);
            if random_num(rng) < reflect_prob {
                reflect(unit_direction, record.normal)
            } else {
                refract(unit_direction, record.normal, etai_over_etat)
            }
        };
        Some((Ray { origin: record.position, direction: next_direction }, Vec3::one()))
    }
}

/// The closed set of materials a scene can hold.
#[derive(Clone, Copy, Debug)]
pub enum MaterialKind {
    Lambertian(Lambertian),
    Metal(Metal),
    Dielectric(Dielectric),
}

impl MaterialKind {
    /// The wrapped material is well formed.
    pub open spec fn wf(&self) -> bool {
        match self {
            MaterialKind::Lambertian(l) => l.wf(),
            MaterialKind::Metal(m) => m.wf(),
            MaterialKind::Dielectric(d) => d.wf(),
        }
    }

    /// Dispatch scattering to the wrapped material.  Whatever the
    /// variant: a scattered ray starts at the hit position, a
    /// well-formed material never amplifies any color component, and
    /// the ray is absorbed exactly when the (deterministic)
    /// absorption condition holds.
    pub fn scatter(
        &self,
        ray_in: Ray,
        record: HitRecord,
        rng: &mut rand::rngs::StdRng,
    ) -> (r: Option<(Ray, Color)>)
        ensures
            record.material == *self ==> (r is Some <==> !absorbs_spec(ray_in, record)),
            match r {
                Some((out, att)) => out.origin == record.position && (self.wf()
                    ==> color_unit(att)),
                None => true,
            },
    {
        match self {
            MaterialKind::Lambertian(l) => l.scatter(ray_in, record, rng),
            MaterialKind::Metal(m) => m.scatter(ray_in, record, rng),
            MaterialKind::Dielectric(d) => d.scatter(ray_in, record, rng),
        }
    }
}

} // verus!
