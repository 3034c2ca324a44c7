//! Fixed-point scalar arithmetic.
//!
//! A scalar is an `i64` counting 1/65536ths of a unit (`FX_ONE` is one).
//! Every operation is total: results are saturated into
//! `[-FX_MAX, FX_MAX]`, division by zero yields zero, and the square root
//! of a negative number yields zero, so no sequence of operations can
//! overflow or panic.  Each executable operation is pinned exactly to a
//! spec-level counterpart (`fx_add`, `fx_mul`, ...).

use vstd::prelude::*;

verus! {

/// One, in fixed-point units.
pub const FX_ONE: i64 = 65536;

/// Every fixed-point operation saturates into `[-FX_MAX, FX_MAX]`.
pub const FX_MAX: i64 = 0x4000_0000_0000_0000;

/// Pi, in fixed-point units (rounded to the nearest 1/65536th).
pub const PI: i64 = 205887;

/// Stands in for an unbounded upper ray-parameter limit.
pub const FX_INFINITY: i64 = 0x4000_0000_0000_0000;

/// Absolute value of a mathematical integer.
pub open spec fn abs_int(x: int) -> int {
    if x < 0 {
        -x
    } else {
        x
    }
}

/// Division truncated toward zero, with zero for a zero divisor.
pub open spec fn div_t(a: int, b: int) -> int {
    if b == 0 {
        0
    } else if (a < 0) == (b < 0) {
        abs_int(a) / abs_int(b)
    } else {
        -(abs_int(a) / abs_int(b))
    }
}

/// Saturation of a mathematical integer into `[-FX_MAX, FX_MAX]`.
pub open spec fn sat(x: int) -> int {
    if x > FX_MAX {
        FX_MAX as int
    } else if x < -(FX_MAX as int) {
        -(FX_MAX as int)
    } else {
        x
    }
}

/// Fixed-point addition.
pub open spec fn fx_add(a: int, b: int) -> int {
    sat(a + b)
}

/// Fixed-point subtraction.
pub open spec fn fx_sub(a: int, b: int) -> int {
    sat(a - b)
}

/// Fixed-point multiplication: `a * b` rescaled by `FX_ONE`.
pub open spec fn fx_mul(a: int, b: int) -> int {
    sat(div_t(a * b, FX_ONE as int))
}

/// Fixed-point division: `a / b` rescaled by `FX_ONE`; zero for `b == 0`.
pub open spec fn fx_div(a: int, b: int) -> int {
    if b == 0 {
        0
    } else {
        sat(div_t(a * (FX_ONE as int), b))
    }
}

/// `r` is the floor of the square root of `n`.
pub open spec fn is_sqrt_floor(n: int, r: int) -> bool {
    0 <= r && r * r <= n && n < (r + 1) * (r + 1)
}

/// The floor of the square root of a nonnegative integer
/// (zero for a negative argument).
pub open spec fn sqrt_floor(n: int) -> int {
    if n < 0 {
        0
    } else {
        choose|r: int| is_sqrt_floor(n, r)
    }
}

/// Fixed-point square root: `sqrt(a / FX_ONE) * FX_ONE` rounded down,
/// and zero for a nonpositive argument.
pub open spec fn fx_sqrt(a: int) -> int {
    if a <= 0 {
        0
    } else {
        sqrt_floor(a * (FX_ONE as int))
    }
}

/// Some nonnegative `r` with `r * r <= n < (r + 1) * (r + 1)` exists for
/// every nonnegative `n`.
proof fn lemma_sqrt_exists(n: int) -> (r: int)
    requires
        n >= 0,
    ensures
        0 <= r,
        r * r <= n,
        n < (r + 1) * (r + 1),
    decreases n,
{
    if n == 0 {
        0
    } else {
        let s = lemma_sqrt_exists(n - 1);
        if (s + 1) * (s + 1) <= n {
            assert(n == (s + 1) * (s + 1));
            assert((s + 2) * (s + 2) > (s + 1) * (s + 1)) by (nonlinear_arith)
                requires
                    s >= 0,
            ;
            s + 1
        } else {
            s
        }
    }
}

/// The square-root floor is unique.
proof fn lemma_sqrt_unique(n: int, r1: int, r2: int)
    by (nonlinear_arith)
    requires
        0 <= r1,
        r1 * r1 <= n,
        n < (r1 + 1) * (r1 + 1),
        0 <= r2,
        r2 * r2 <= n,
        n < (r2 + 1) * (r2 + 1),
    ensures
        r1 == r2,
{
}

/// `sqrt_floor` satisfies its defining property on nonnegative arguments.
pub proof fn lemma_sqrt_floor(n: int)
    requires
        n >= 0,
    ensures
        0 <= sqrt_floor(n),
        sqrt_floor(n) * sqrt_floor(n) <= n,
        n < (sqrt_floor(n) + 1) * (sqrt_floor(n) + 1),
{
    let w = lemma_sqrt_exists(n);
    assert(is_sqrt_floor(n, w));
    assert(is_sqrt_floor(n, sqrt_floor(n)));
}

/// The quotient of nonnegative integers is at most the dividend.
proof fn lemma_div_pos_le(a: int, b: int)
    requires
        a >= 0,
        b >= 1,
    ensures
        0 <= a / b <= a,
{
    vstd::arithmetic::div_mod::lemma_div_pos_is_pos(a, b);
    vstd::arithmetic::div_mod::lemma_div_nonincreasing(a, b);
}

/// An exact division truncates to its exact quotient.
pub proof fn lemma_div_t_exact(a: int, b: int, q: int)
    requires
        b > 0,
        a == q * b,
    ensures
        div_t(a, b) == q,
{
    if a >= 0 {
        assert(abs_int(a) == q * b);
        vstd::arithmetic::div_mod::lemma_fundamental_div_mod_converse_div(a, b, q, 0);
    } else {
        assert(q < 0) by (nonlinear_arith)
            requires
                b > 0,
                a == q * b,
                a < 0,
        ;
        assert(-a == (-q) * b) by (nonlinear_arith)
            requires
                a == q * b,
        ;
        vstd::arithmetic::div_mod::lemma_fundamental_div_mod_converse_div(-a, b, -q, 0);
    }
}

/// A Euclidean division of nonnegative values, decomposed into
/// quotient and remainder.
pub proof fn lemma_div_t_decompose(a: int, d: int)
    requires
        a >= 0,
        d > 0,
    ensures
        0 <= div_t(a, d),
        div_t(a, d) * d <= a,
        a < div_t(a, d) * d + d,
        a == div_t(a, d) * d + (a % d),
        0 <= a % d < d,
{
    vstd::arithmetic::div_mod::lemma_fundamental_div_mod(a, d);
    vstd::arithmetic::div_mod::lemma_mod_division_less_than_divisor(a, d);
    vstd::arithmetic::div_mod::lemma_div_pos_is_pos(a, d);
    vstd::arithmetic::mul::lemma_mul_is_commutative(div_t(a, d), d);
}

/// Multiplying by a factor of at most one never grows a nonnegative
/// fixed-point value, and the product of two unit-range values stays
/// below either factor.
pub proof fn lemma_fx_mul_unit(a: int, b: int)
    requires
        0 <= a <= FX_MAX as int,
        0 <= b <= FX_ONE as int,
    ensures
        0 <= fx_mul(a, b) <= a,
        a <= FX_ONE as int ==> fx_mul(a, b) <= b,
{
    assert(0 <= a * b <= a * (FX_ONE as int)) by (nonlinear_arith)
        requires
            0 <= a,
            0 <= b <= FX_ONE as int,
            FX_ONE == 65536,
    ;
    vstd::arithmetic::div_mod::lemma_div_pos_is_pos(a * b, FX_ONE as int);
    lemma_div_t_mono(a * b, a * (FX_ONE as int), FX_ONE as int);
    lemma_div_t_exact(a * (FX_ONE as int), FX_ONE as int, a);
    if a <= FX_ONE as int {
        assert(a * b <= b * (FX_ONE as int)) by (nonlinear_arith)
            requires
                0 <= a <= FX_ONE as int,
                0 <= b,
                FX_ONE == 65536,
        ;
        lemma_div_t_mono(a * b, b * (FX_ONE as int), FX_ONE as int);
        lemma_div_t_exact(b * (FX_ONE as int), FX_ONE as int, b);
    }
}

/// Truncated division by a positive divisor is monotone in the
/// dividend.
pub proof fn lemma_div_t_mono(x: int, y: int, d: int)
    requires
        x <= y,
        d > 0,
    ensures
        div_t(x, d) <= div_t(y, d),
{
    if x >= 0 {
        vstd::arithmetic::div_mod::lemma_div_is_ordered(x, y, d);
    } else if y < 0 {
        vstd::arithmetic::div_mod::lemma_div_is_ordered(-y, -x, d);
    } else {
        vstd::arithmetic::div_mod::lemma_div_pos_is_pos(y, d);
        vstd::arithmetic::div_mod::lemma_div_pos_is_pos(-x, d);
    }
}

/// Saturate an `i128` into the fixed-point range.
pub(crate) fn sat_i128(x: i128) -> (r: i64)
    ensures
        r == sat(x as int),
{
    if x > FX_MAX as i128 {
        FX_MAX
    } else if x < -(FX_MAX as i128) {
        -FX_MAX
    } else {
        x as i64
    }
}

/// Division of `i128` values truncated toward zero.
pub(crate) fn div_trunc_i128(a: i128, b: i128) -> (q: i128)
    requires
        b != 0,
        a > i128::MIN,
        b > i128::MIN,
    ensures
        q == div_t(a as int, b as int),
{
    let pa: i128 = if a < 0 {
        -a
    } else {
        a
    };
    let pb: i128 = if b < 0 {
        -b
    } else {
        b
    };
    proof {
        lemma_div_pos_le(pa as int, pb as int);
    }
    let q0: i128 = pa / pb;
    if (a < 0) != (b < 0) {
        -q0
    } else {
        q0
    }
}

/// The product of two `i64` values fits comfortably in `i128`.
proof fn lemma_mul_i64_fits(a: int, b: int)
    by (nonlinear_arith)
    requires
        -0x8000_0000_0000_0000 <= a < 0x8000_0000_0000_0000,
        -0x8000_0000_0000_0000 <= b < 0x8000_0000_0000_0000,
    ensures
        -0x4000_0000_0000_0000_0000_0000_0000_0000 <= a * b
            <= 0x4000_0000_0000_0000_0000_0000_0000_0000,
{
}

/// Fixed-point addition.
pub fn add_fx(a: i64, b: i64) -> (r: i64)
    ensures
        r == fx_add(a as int, b as int),
{
    let s: i128 = (a as i128) + (b as i128);
    sat_i128(s)
}

/// Fixed-point subtraction.
pub fn sub_fx(a: i64, b: i64) -> (r: i64)
    ensures
        r == fx_sub(a as int, b as int),
{
    let s: i128 = (a as i128) - (b as i128);
    sat_i128(s)
}

/// Fixed-point multiplication.
pub fn mul_fx(a: i64, b: i64) -> (r: i64)
    ensures
        r == fx_mul(a as int, b as int),
{
    proof {
        lemma_mul_i64_fits(a as int, b as int);
    }
    let p: i128 = (a as i128) * (b as i128);
    let q = div_trunc_i128(p, FX_ONE as i128);
    sat_i128(q)
}

/// Fixed-point division.
pub fn div_fx(a: i64, b: i64) -> (r: i64)
    ensures
        r == fx_div(a as int, b as int),
{
    if b == 0 {
        0
    } else {
        proof {
            lemma_mul_i64_fits(a as int, FX_ONE as int);
        }
        let p: i128 = (a as i128) * (FX_ONE as i128);
        let q = div_trunc_i128(p, b as i128);
        sat_i128(q)
    }
}

/// The floor of the square root of a nonnegative `i128` below `2^126`,
/// found by bisection.
pub(crate) fn isqrt_i128(n: i128) -> (r: i128)
    requires
        0 <= n < 0x4000_0000_0000_0000_0000_0000_0000_0000,
    ensures
        r == sqrt_floor(n as int),
{
    proof {
        lemma_sqrt_floor(n as int);
    }
    if n == 0 {
        assert(sqrt_floor(0) == 0) by {
            lemma_sqrt_unique(0, sqrt_floor(0), 0);
        }
        return 0;
    }
    let mut lo: i128 = 0;
    let mut hi: i128 = 0x8000_0000_0000_0000;
    assert(hi * hi > n);
    while hi - lo > 1
        invariant
            0 <= lo < hi <= 0x8000_0000_0000_0000,
            lo * lo <= n,
            n < hi * hi,
            n < 0x4000_0000_0000_0000_0000_0000_0000_0000,
        decreases hi - lo,
    {
        let mid: i128 = lo + (hi - lo) / 2;
        assert(lo < mid < hi);
        proof {
            lemma_mul_i64_fits(mid as int, mid as int);
        }
        let sq: i128 = mid * mid;
        if sq <= n {
            lo = mid;
        } else {
            hi = mid;
        }
    }
    proof {
        lemma_sqrt_unique(n as int, sqrt_floor(n as int), lo as int);
    }
    lo
}

/// Fixed-point square root.
pub fn sqrt_fx(a: i64) -> (r: i64)
    ensures
        r == fx_sqrt(a as int),
{
    if a <= 0 {
        0
    } else {
        proof {
            lemma_mul_i64_fits(a as int, FX_ONE as int);
        }
        let n: i128 = (a as i128) * (FX_ONE as i128);
        assert(n < 0x8000_0000_0000_0000_0000i128) by (nonlinear_arith)
            requires
                n == (a as int) * (FX_ONE as int),
                0 < a < 0x8000_0000_0000_0000,
                FX_ONE == 65536,
        ;
        let r = isqrt_i128(n);
        proof {
            lemma_sqrt_floor(n as int);
            assert(r * r <= n);
            assert(r <= 0x100_0000_0000i128) by (nonlinear_arith)
                requires
                    r * r <= n,
                    r >= 0,
                    n < 0x8000_0000_0000_0000_0000,
            ;
        }
        r as i64
    }
}

/// Clamp a value into `[min, max]`.
pub open spec fn clamp_spec(value: int, min: int, max: int) -> int {
    if value < min {
        min
    } else if value > max {
        max
    } else {
        value
    }
}

/// Clamp `value` into `[min, max]` (callers pass `min <= max`).
pub fn clamp_num(value: i64, min: i64, max: i64) -> (r: i64)
    ensures
        r == clamp_spec(value as int, min as int, max as int),
{
    if value < min {
        min
    } else if value > max {
        max
    } else {
        value
    }
}

/// Truncated Taylor series for the sine, accurate near the origin
/// (the camera only evaluates it for half field-of-view angles,
/// well inside a quarter turn).
pub open spec fn sin_spec(x: int) -> int {
    let x2 = fx_mul(x, x);
    let x3 = fx_mul(x2, x);
    let x5 = fx_mul(x3, x2);
    let x7 = fx_mul(x5, x2);
    fx_sub(
        fx_add(fx_sub(x, fx_div(x3, 6 * (FX_ONE as int))), fx_div(x5, 120 * (FX_ONE as int))),
        fx_div(x7, 5040 * (FX_ONE as int)),
    )
}

/// Truncated Taylor series for the cosine.
pub open spec fn cos_spec(x: int) -> int {
    let x2 = fx_mul(x, x);
    let x4 = fx_mul(x2, x2);
    let x6 = fx_mul(x4, x2);
    fx_sub(
        fx_add(fx_sub(FX_ONE as int, fx_div(x2, 2 * (FX_ONE as int))), fx_div(
            x4,
            24 * (FX_ONE as int),
        )),
        fx_div(x6, 720 * (FX_ONE as int)),
    )
}

/// The tangent as the ratio of the series above (zero where the cosine
/// series vanishes).
pub open spec fn tan_spec(x: int) -> int {
    fx_div(sin_spec(x), cos_spec(x))
}

/// Sine of an angle in radians.
pub fn sin_fx(x: i64) -> (r: i64)
    ensures
        r == sin_spec(x as int),
{
    let x2 = mul_fx(x, x);
    let x3 = mul_fx(x2, x);
    let x5 = mul_fx(x3, x2);
    let x7 = mul_fx(x5, x2);
    sub_fx(
        add_fx(sub_fx(x, div_fx(x3, 6 * FX_ONE)), div_fx(x5, 120 * FX_ONE)),
        div_fx(x7, 5040 * FX_ONE),
    )
}

/// Cosine of an angle in radians.
pub fn cos_fx(x: i64) -> (r: i64)
    ensures
        r == cos_spec(x as int),
{
    let x2 = mul_fx(x, x);
    let x4 = mul_fx(x2, x2);
    let x6 = mul_fx(x4, x2);
    sub_fx(
        add_fx(sub_fx(FX_ONE, div_fx(x2, 2 * FX_ONE)), div_fx(x4, 24 * FX_ONE)),
        div_fx(x6, 720 * FX_ONE),
    )
}

/// Tangent of an angle in radians.
pub fn tan_fx(x: i64) -> (r: i64)
    ensures
        r == tan_spec(x as int),
{
    let s = sin_fx(x);
    let c = cos_fx(x);
    div_fx(s, c)
}

/// Degrees to radians, in fixed-point units.
pub open spec fn degrees_to_radians_spec(degrees: int) -> int {
    fx_div(fx_mul(degrees, PI as int), 180 * (FX_ONE as int))
}

/// Convert an angle in degrees to radians.
pub fn degrees_to_radians(degrees: i64) -> (r: i64)
    ensures
        r == degrees_to_radians_spec(degrees as int),
{
    let p = mul_fx(degrees, PI);
    div_fx(p, 180 * FX_ONE)
}

} // verus!
