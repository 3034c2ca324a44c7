//! Three-component vectors over fixed-point scalars.
//!
//! Operations mirror the scalar layer: each executable method is pinned
//! to a spec-level counterpart built from `fx_add`, `fx_mul`, and
//! friends, so every vector computation is exact and total.

use vstd::prelude::*;

use crate::math::{
    abs_int, add_fx, div_fx, div_t, fx_add, fx_div, fx_mul, fx_sqrt, fx_sub, mul_fx, sqrt_floor,
    sqrt_fx, sub_fx, FX_ONE,
};

verus! {

/// A vector of three fixed-point scalars.
#[derive(Clone, Copy, Debug, PartialEq, Eq, Structural)]
pub struct Vec3 {
    pub x: i64,
    pub y: i64,
    pub z: i64,
}

/// Build a vector from mathematical integers (callers keep the
/// components within the fixed-point range).
pub open spec fn v3(x: int, y: int, z: int) -> Vec3 {
    Vec3 { x: x as i64, y: y as i64, z: z as i64 }
}

/// Componentwise addition.
pub open spec fn add_spec(a: Vec3, b: Vec3) -> Vec3 {
    v3(fx_add(a.x as int, b.x as int), fx_add(a.y as int, b.y as int), fx_add(
        a.z as int,
        b.z as int,
    ))
}

/// Componentwise subtraction.
pub open spec fn sub_spec(a: Vec3, b: Vec3) -> Vec3 {
    v3(fx_sub(a.x as int, b.x as int), fx_sub(a.y as int, b.y as int), fx_sub(
        a.z as int,
        b.z as int,
    ))
}

/// Componentwise multiplication.
pub open spec fn mul_spec(a: Vec3, b: Vec3) -> Vec3 {
    v3(fx_mul(a.x as int, b.x as int), fx_mul(a.y as int, b.y as int), fx_mul(
        a.z as int,
        b.z as int,
    ))
}

/// Multiplication by a scalar.
pub open spec fn scale_spec(a: Vec3, s: int) -> Vec3 {
    v3(fx_mul(a.x as int, s), fx_mul(a.y as int, s), fx_mul(a.z as int, s))
}

/// Division by a scalar (zero vector for a zero divisor).
pub open spec fn div_spec(a: Vec3, s: int) -> Vec3 {
    v3(fx_div(a.x as int, s), fx_div(a.y as int, s), fx_div(a.z as int, s))
}

/// Componentwise negation.
pub open spec fn neg_spec(a: Vec3) -> Vec3 {
    v3(fx_sub(0, a.x as int), fx_sub(0, a.y as int), fx_sub(0, a.z as int))
}

/// The dot product.
pub open spec fn dot_spec(a: Vec3, b: Vec3) -> int {
    fx_add(
        fx_add(fx_mul(a.x as int, b.x as int), fx_mul(a.y as int, b.y as int)),
        fx_mul(a.z as int, b.z as int),
    )
}

/// The cross product.
pub open spec fn cross_spec(a: Vec3, b: Vec3) -> Vec3 {
    v3(
        fx_sub(fx_mul(a.y as int, b.z as int), fx_mul(a.z as int, b.y as int)),
        fx_sub(fx_mul(a.z as int, b.x as int), fx_mul(a.x as int, b.z as int)),
        fx_sub(fx_mul(a.x as int, b.y as int), fx_mul(a.y as int, b.x as int)),
    )
}

/// The squared magnitude.
pub open spec fn mag2_spec(a: Vec3) -> int {
    dot_spec(a, a)
}

/// The magnitude.
pub open spec fn magnitude_spec(a: Vec3) -> int {
    fx_sqrt(mag2_spec(a))
}

/// The unit vector in the direction of `a`, or the zero vector where
/// the magnitude rounds to zero and no unit direction exists.
pub open spec fn unit_spec(a: Vec3) -> Vec3 {
    if magnitude_spec(a) == 0 {
        v3(0, 0, 0)
    } else {
        div_spec(a, magnitude_spec(a))
    }
}

impl Vec3 {
    /// Build a vector from its components.
    pub fn new(x: i64, y: i64, z: i64) -> (r: Vec3)
        ensures
            r == (Vec3 { x, y, z }),
    {
        Vec3 { x, y, z }
    }

    /// The zero vector.
    pub fn zero() -> (r: Vec3)
        ensures
            r == v3(0, 0, 0),
    {
        Vec3 { x: 0, y: 0, z: 0 }
    }

    /// The all-ones vector.
    pub fn one() -> (r: Vec3)
        ensures
            r == v3(FX_ONE as int, FX_ONE as int, FX_ONE as int),
    {
        Vec3 { x: FX_ONE, y: FX_ONE, z: FX_ONE }
    }

    /// The unit vector along the first axis.
    pub fn unit_x() -> (r: Vec3)
        ensures
            r == v3(FX_ONE as int, 0, 0),
    {
        Vec3 { x: FX_ONE, y: 0, z: 0 }
    }

    /// The unit vector along the second axis.
    pub fn unit_y() -> (r: Vec3)
        ensures
            r == v3(0, FX_ONE as int, 0),
    {
        Vec3 { x: 0, y: FX_ONE, z: 0 }
    }

    /// The unit vector along the third axis.
    pub fn unit_z() -> (r: Vec3)
        ensures
            r == v3(0, 0, FX_ONE as int),
    {
        Vec3 { x: 0, y: 0, z: FX_ONE }
    }

    /// Componentwise addition.
    pub fn add(self, other: Vec3) -> (r: Vec3)
        ensures
            r == add_spec(self, other),
    {
        Vec3 {
            x: add_fx(self.x, other.x),
            y: add_fx(self.y, other.y),
            z: add_fx(self.z, other.z),
        }
    }

    /// Componentwise subtraction.
    pub fn sub(self, other: Vec3) -> (r: Vec3)
        ensures
            r == sub_spec(self, other),
    {
        Vec3 {
            x: sub_fx(self.x, other.x),
            y: sub_fx(self.y, other.y),
            z: sub_fx(self.z, other.z),
        }
    }

    /// Componentwise multiplication.
    pub fn mul(self, other: Vec3) -> (r: Vec3)
        ensures
            r == mul_spec(self, other),
    {
        Vec3 {
            x: mul_fx(self.x, other.x),
            y: mul_fx(self.y, other.y),
            z: mul_fx(self.z, other.z),
        }
    }

    /// Multiplication by a scalar.
    pub fn scale(self, s: i64) -> (r: Vec3)
        ensures
            r == scale_spec(self, s as int),
    {
        Vec3 { x: mul_fx(self.x, s), y: mul_fx(self.y, s), z: mul_fx(self.z, s) }
    }

    /// Division by a scalar (the zero vector for a zero divisor).
    pub fn div(self, s: i64) -> (r: Vec3)
        ensures
            r == div_spec(self, s as int),
    {
        Vec3 { x: div_fx(self.x, s), y: div_fx(self.y, s), z: div_fx(self.z, s) }
    }

    /// Componentwise negation.
    pub fn neg(self) -> (r: Vec3)
        ensures
            r == neg_spec(self),
    {
        Vec3 { x: sub_fx(0, self.x), y: sub_fx(0, self.y), z: sub_fx(0, self.z) }
    }

    /// The squared magnitude.
    pub fn magnitude_squared(self) -> (r: i64)
        ensures
            r == mag2_spec(self),
    {
        self.dot(self)
    }

    /// The magnitude.
    pub fn magnitude(self) -> (r: i64)
        ensures
            r == magnitude_spec(self),
    {
        sqrt_fx(self.magnitude_squared())
    }

    /// The unit vector in this direction, or the zero vector where the
    /// magnitude rounds to zero and no unit direction exists.
    pub fn unit_vector(self) -> (r: Vec3)
        ensures
            r == unit_spec(self),
    {
        let m = self.magnitude();
        if m == 0 {
            Vec3::zero()
        } else {
            self.div(m)
        }
    }

    /// The dot product.
    pub fn dot(self, other: Vec3) -> (r: i64)
        ensures
            r == dot_spec(self, other),
    {
        add_fx(
            add_fx(mul_fx(self.x, other.x), mul_fx(self.y, other.y)),
            mul_fx(self.z, other.z),
        )
    }

    /// The cross product.
    pub fn cross(self, other: Vec3) -> (r: Vec3)
        ensures
            r == cross_spec(self, other),
    {
        Vec3 {
            x: sub_fx(mul_fx(self.y, other.z), mul_fx(self.z, other.y)),
            y: sub_fx(mul_fx(self.z, other.x), mul_fx(self.x, other.z)),
            z: sub_fx(mul_fx(self.x, other.y), mul_fx(self.y, other.x)),
        }
    }
}

/// A vector with three independent uniform samples in `[0, 1)`.
pub fn random_vec3(rng: &mut rand::rngs::StdRng) -> (r: Vec3)
    ensures
        0 <= r.x < FX_ONE,
        0 <= r.y < FX_ONE,
        0 <= r.z < FX_ONE,
{
    Vec3 { x: crate::rng::random_num(rng), y: crate::rng::random_num(rng), z: crate::rng::random_num(rng) }
}

/// A vector with three independent uniform samples in `[min, max)`.
pub fn random_vec3_rng(rng: &mut rand::rngs::StdRng, min: i64, max: i64) -> (r: Vec3)
    requires
        min < max,
    ensures
        min <= r.x < max,
        min <= r.y < max,
        min <= r.z < max,
{
    Vec3 {
        x: crate::rng::random_num_rng(rng, min, max),
        y: crate::rng::random_num_rng(rng, min, max),
        z: crate::rng::random_num_rng(rng, min, max),
    }
}

/// Unit-vector normalization: any vector of magnitude at least one
/// half (with components small enough that no operation saturates)
/// normalizes to a vector whose magnitude is one to within a handful
/// of 1/65536ths, and within an even narrower band when the magnitude
/// is at least one.
pub proof fn lemma_unit_vector_magnitude(v: Vec3)
    requires
        abs_int(v.x as int) <= 0x20_0000_0000,
        abs_int(v.y as int) <= 0x20_0000_0000,
        abs_int(v.z as int) <= 0x20_0000_0000,
        magnitude_spec(v) >= 32768,
    ensures
        FX_ONE - 4 <= magnitude_spec(unit_spec(v)) <= FX_ONE + 9,
        magnitude_spec(v) >= FX_ONE ==> magnitude_spec(unit_spec(v)) <= FX_ONE + 2,
{
    let s: int = FX_ONE as int;
    let x = v.x as int;
    let y = v.y as int;
    let z = v.z as int;
    let px = abs_int(x);
    let py = abs_int(y);
    let pz = abs_int(z);
    assert(x * x == px * px && 0 <= x * x <= 0x1000_0000_0000_0000_0000) by (nonlinear_arith)
        requires
            (px == x || px == -x) && 0 <= px <= 0x20_0000_0000,
    ;
    assert(y * y == py * py && 0 <= y * y <= 0x1000_0000_0000_0000_0000) by (nonlinear_arith)
        requires
            (py == y || py == -y) && 0 <= py <= 0x20_0000_0000,
    ;
    assert(z * z == pz * pz && 0 <= z * z <= 0x1000_0000_0000_0000_0000) by (nonlinear_arith)
        requires
            (pz == z || pz == -z) && 0 <= pz <= 0x20_0000_0000,
    ;
    let m2v = x * x + y * y + z * z;

    // The stored squared magnitude is the true square sum scaled down,
    // up to three sub-unit truncations.
    crate::math::lemma_div_t_decompose(x * x, s);
    crate::math::lemma_div_t_decompose(y * y, s);
    crate::math::lemma_div_t_decompose(z * z, s);
    let qx = div_t(x * x, s);
    let qy = div_t(y * y, s);
    let qz = div_t(z * z, s);
    let rr = ((x * x) % s) + ((y * y) % s) + ((z * z) % s);
    assert(qx <= 0x1000_0000_0000_0000);
    assert(qy <= 0x1000_0000_0000_0000);
    assert(qz <= 0x1000_0000_0000_0000);
    assert(mag2_spec(v) == qx + qy + qz);
    assert(mag2_spec(v) * s == m2v - rr);
    assert(0 <= rr < 3 * s);

    // The stored magnitude is the square-root floor of that.
    let m = magnitude_spec(v);
    assert(mag2_spec(v) > 0);
    crate::math::lemma_sqrt_floor(mag2_spec(v) * s);
    assert(m == sqrt_floor(mag2_spec(v) * s));
    assert(m * m <= m2v - rr);
    assert(m2v - rr < (m + 1) * (m + 1));
    assert((m + 1) * (m + 1) == m * m + 2 * m + 1) by (nonlinear_arith);
    assert(m * m <= m2v);
    assert(m2v <= m * m + 9 * m);

    // The unit vector's components, exactly.
    let u = unit_spec(v);
    crate::math::lemma_div_t_decompose(px * s, m);
    crate::math::lemma_div_t_decompose(py * s, m);
    crate::math::lemma_div_t_decompose(pz * s, m);
    let qux = div_t(px * s, m);
    let quy = div_t(py * s, m);
    let quz = div_t(pz * s, m);
    assert(qux <= 2 * px) by (nonlinear_arith)
        requires
            qux * m <= px * s,
            0 <= px,
            0 < s <= 2 * m,
            0 <= qux,
    ;
    assert(quy <= 2 * py) by (nonlinear_arith)
        requires
            quy * m <= py * s,
            0 <= py,
            0 < s <= 2 * m,
            0 <= quy,
    ;
    assert(quz <= 2 * pz) by (nonlinear_arith)
        requires
            quz * m <= pz * s,
            0 <= pz,
            0 < s <= 2 * m,
            0 <= quz,
    ;
    assert(div_t(x * s, m) == if x >= 0 { qux } else { -qux });
    assert(div_t(y * s, m) == if y >= 0 { quy } else { -quy });
    assert(div_t(z * s, m) == if z >= 0 { quz } else { -quz });
    let ux = u.x as int;
    let uy = u.y as int;
    let uz = u.z as int;
    assert(ux == if x >= 0 { qux } else { -qux });
    assert(uy == if y >= 0 { quy } else { -quy });
    assert(uz == if z >= 0 { quz } else { -quz });
    assert(ux * ux == qux * qux && qux * qux <= 0x1000_0000_0000_0000_0000) by (nonlinear_arith)
        requires
            (ux == qux || ux == -qux) && 0 <= qux <= 0x40_0000_0000,
    ;
    assert(uy * uy == quy * quy && quy * quy <= 0x1000_0000_0000_0000_0000) by (nonlinear_arith)
        requires
            (uy == quy || uy == -quy) && 0 <= quy <= 0x40_0000_0000,
    ;
    assert(uz * uz == quz * quz && quz * quz <= 0x1000_0000_0000_0000_0000) by (nonlinear_arith)
        requires
            (uz == quz || uz == -quz) && 0 <= quz <= 0x40_0000_0000,
    ;
    let u2 = ux * ux + uy * uy + uz * uz;

    // The unit vector's stored squared magnitude, exactly.
    crate::math::lemma_div_t_decompose(ux * ux, s);
    crate::math::lemma_div_t_decompose(uy * uy, s);
    crate::math::lemma_div_t_decompose(uz * uz, s);
    let rr2 = ((ux * ux) % s) + ((uy * uy) % s) + ((uz * uz) % s);
    assert(div_t(ux * ux, s) <= 0x1000_0000_0000_0000);
    assert(div_t(uy * uy, s) <= 0x1000_0000_0000_0000);
    assert(div_t(uz * uz, s) <= 0x1000_0000_0000_0000);
    assert(mag2_spec(u) == div_t(ux * ux, s) + div_t(uy * uy, s) + div_t(uz * uz, s));
    assert(mag2_spec(u) * s == u2 - rr2);
    assert(0 <= rr2 < 3 * s);

    // Upper bound: truncation toward zero never grows a component.
    let tx = qux * m;
    let ty = quy * m;
    let tz = quz * m;
    assert((qux * qux) * (m * m) == tx * tx) by (nonlinear_arith)
        requires
            tx == qux * m,
    ;
    assert((quy * quy) * (m * m) == ty * ty) by (nonlinear_arith)
        requires
            ty == quy * m,
    ;
    assert((quz * quz) * (m * m) == tz * tz) by (nonlinear_arith)
        requires
            tz == quz * m,
    ;
    assert(u2 * (m * m) == (qux * qux) * (m * m) + (quy * quy) * (m * m) + (quz * quz) * (m
        * m)) by (nonlinear_arith)
        requires
            u2 == qux * qux + quy * quy + quz * quz,
    ;
    assert(u2 * (m * m) == tx * tx + ty * ty + tz * tz);
    assert(tx * tx <= (px * s) * (px * s)) by (nonlinear_arith)
        requires
            0 <= tx <= px * s,
    ;
    assert(ty * ty <= (py * s) * (py * s)) by (nonlinear_arith)
        requires
            0 <= ty <= py * s,
    ;
    assert(tz * tz <= (pz * s) * (pz * s)) by (nonlinear_arith)
        requires
            0 <= tz <= pz * s,
    ;
    assert((px * s) * (px * s) == (px * px) * (s * s)) by (nonlinear_arith);
    assert((py * s) * (py * s) == (py * py) * (s * s)) by (nonlinear_arith);
    assert((pz * s) * (pz * s) == (pz * pz) * (s * s)) by (nonlinear_arith);
    assert((px * px) * (s * s) + (py * py) * (s * s) + (pz * pz) * (s * s) == m2v * (s * s))
        by (nonlinear_arith)
        requires
            m2v == px * px + py * py + pz * pz,
    ;
    assert(u2 * (m * m) <= m2v * (s * s));
    assert(m2v * (s * s) <= (m * m + 9 * m) * (s * s)) by (nonlinear_arith)
        requires
            m2v <= m * m + 9 * m,
    ;
    assert(u2 <= s * s + 18 * s) by (nonlinear_arith)
        requires
            u2 * (m * m) <= (m * m + 9 * m) * (s * s),
            m >= 32768,
            s == 65536,
            u2 >= 0,
    ;
    if m >= s {
        assert(m2v <= m * m + 5 * m);
        assert(m2v * (s * s) <= (m * m + 5 * m) * (s * s)) by (nonlinear_arith)
            requires
                m2v <= m * m + 5 * m,
        ;
        assert(u2 <= s * s + 5 * s) by (nonlinear_arith)
            requires
                u2 * (m * m) <= (m * m + 5 * m) * (s * s),
                m >= s,
                s == 65536,
                u2 >= 0,
        ;
    }

    // Lower bound: each truncation loses less than one quotient unit.
    assert(tx * tx >= (px * s) * (px * s) - 2 * m * (px * s)) by (nonlinear_arith)
        requires
            tx >= px * s - m,
            tx >= 0,
            px * s >= 0,
            m > 0,
    ;
    assert(ty * ty >= (py * s) * (py * s) - 2 * m * (py * s)) by (nonlinear_arith)
        requires
            ty >= py * s - m,
            ty >= 0,
            py * s >= 0,
            m > 0,
    ;
    assert(tz * tz >= (pz * s) * (pz * s) - 2 * m * (pz * s)) by (nonlinear_arith)
        requires
            tz >= pz * s - m,
            tz >= 0,
            pz * s >= 0,
            m > 0,
    ;
    let p_sum = px + py + pz;
    assert(2 * m * (px * s) + 2 * m * (py * s) + 2 * m * (pz * s) == 2 * m * s * p_sum)
        by (nonlinear_arith)
        requires
            p_sum == px + py + pz,
    ;
    assert(u2 * (m * m) >= m2v * (s * s) - 2 * m * s * p_sum);
    assert(p_sum * p_sum <= 3 * m2v) by (nonlinear_arith)
        requires
            m2v == px * px + py * py + pz * pz,
            p_sum == px + py + pz,
    ;
    assert(p_sum < 2 * m) by (nonlinear_arith)
        requires
            p_sum >= 0,
            p_sum * p_sum <= 3 * m2v,
            m2v <= m * m + 9 * m,
            m >= 32768,
    ;
    assert(u2 >= s * s - 4 * s) by (nonlinear_arith)
        requires
            u2 * (m * m) >= m2v * (s * s) - 2 * m * s * p_sum,
            m2v >= m * m,
            0 <= p_sum < 2 * m,
            m >= 32768,
            s == 65536,
    ;

    // The unit vector's magnitude is the square-root floor of a value
    // within a narrow band around one.
    assert(mag2_spec(u) * s >= s * s - 7 * s);
    assert(mag2_spec(u) * s <= s * s + 18 * s);
    assert(mag2_spec(u) > 0);
    let magu = magnitude_spec(u);
    crate::math::lemma_sqrt_floor(mag2_spec(u) * s);
    assert(magu == sqrt_floor(mag2_spec(u) * s));
    let nv = mag2_spec(u) * s;
    assert(magu * magu <= nv);
    assert(nv < (magu + 1) * (magu + 1));
    assert(magu >= s - 4) by (nonlinear_arith)
        requires
            magu >= 0,
            nv < (magu + 1) * (magu + 1),
            nv >= s * s - 7 * s,
            s == 65536,
    ;
    assert(magu <= s + 9) by (nonlinear_arith)
        requires
            magu >= 0,
            magu * magu <= nv,
            nv <= s * s + 18 * s,
            s == 65536,
    ;
    if m >= s {
        assert(nv <= s * s + 5 * s);
        assert(magu <= s + 2) by (nonlinear_arith)
            requires
                magu >= 0,
                magu * magu <= nv,
                nv <= s * s + 5 * s,
                s == 65536,
        ;
    }
}

} // verus!