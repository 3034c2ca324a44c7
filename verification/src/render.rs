//! The light-transport integrator, the per-scanline renderer, the
//! image buffer, and the pixel-raster serializer.
//!
//! The integrator recurses through geometry and materials with a
//! bounce budget: an exhausted budget is black, a miss falls back to a
//! vertical background gradient, a scatter multiplies the recursive
//! radiance by the attenuation componentwise.  Every radiance estimate
//! stays within `[0, 1]` per component.

use vstd::prelude::*;

use crate::materials::{absorbs_spec, color_unit, Dielectric, Lambertian, MaterialKind, Metal};
use crate::math::{
    add_fx, clamp_num, clamp_spec, div_t, fx_add, fx_mul, fx_sqrt, fx_sub, lemma_div_t_exact,
    lemma_fx_mul_unit, mul_fx, sqrt_fx, sub_fx, FX_INFINITY, FX_ONE,
};
use crate::types::{closest_hit_spec, sphere_solution, Camera, Color, Hit, HittablesList, Ray, Sphere};
use crate::vec3::{add_spec, scale_spec, unit_spec, v3, Vec3};

verus! {

/// The lower ray-parameter bound of every scene query, about 0.001:
/// it suppresses self-intersection of scattered rays at their origin
/// ("shadow acne").
pub const SHADOW_ACNE_EPS: i64 = 66;

/// The background: a vertical gradient from white to sky blue, driven
/// by the unit direction's vertical component remapped from `[-1, 1]`
/// to `[0, 1]` (and clamped, so that even a degenerate direction
/// yields a valid color).
pub open spec fn background_spec(direction: Vec3) -> Color {
    let ud = unit_spec(direction);
    let t = clamp_spec(fx_mul(32768, fx_add(ud.y as int, FX_ONE as int)), 0, FX_ONE as int);
    add_spec(
        scale_spec(v3(FX_ONE as int, FX_ONE as int, FX_ONE as int), fx_sub(FX_ONE as int, t)),
        scale_spec(v3(32768, 45875, FX_ONE as int), t),
    )
}

/// Evaluate the background gradient for a ray direction.
pub fn background(direction: Vec3) -> (c: Color)
    ensures
        c == background_spec(direction),
        color_unit(c),
{
    let unit_direction = direction.unit_vector();
    let t_raw = mul_fx(32768, add_fx(unit_direction.y, FX_ONE));
    let t = clamp_num(t_raw, 0, FX_ONE);
    let white = Vec3::one();
    let blue = Vec3::new(32768, 45875, FX_ONE);
    let c = white.scale(sub_fx(FX_ONE, t)).add(blue.scale(t));
    proof {
        let ti = t as int;
        lemma_div_t_exact((FX_ONE as int) * fx_sub(FX_ONE as int, ti), FX_ONE as int, fx_sub(FX_ONE as int, ti));
        lemma_fx_mul_unit(32768, ti);
        lemma_fx_mul_unit(45875, ti);
        lemma_fx_mul_unit(FX_ONE as int, ti);
    }
    c
}

/// No background color component falls below one half: the gradient
/// interpolates white with a sky blue whose darkest component is one
/// half, and the truncation in the blend loses less than one unit.
pub proof fn lemma_background_floor(direction: Vec3)
    ensures
        background_spec(direction).x >= 32768,
        background_spec(direction).y >= 32768,
        background_spec(direction).z >= 32768,
{
    let s = FX_ONE as int;
    let ud = unit_spec(direction);
    let t = clamp_spec(fx_mul(32768, fx_add(ud.y as int, s)), 0, s);
    assert(0 <= t <= s);
    let fs = fx_sub(s, t);
    lemma_div_t_exact(s * fs, s, fs);
    lemma_div_t_exact(s * t, s, t);
    lemma_fx_mul_unit(32768, t);
    lemma_fx_mul_unit(45875, t);
    crate::math::lemma_div_t_decompose(32768 * t, s);
    crate::math::lemma_div_t_decompose(45875 * t, s);
}

/// The recursive radiance estimate for a ray with `depth` bounces
/// left.  A nonpositive budget is black; a miss is the background
/// gradient; a hit whose material absorbs is black; any other hit
/// attenuates the recursive estimate componentwise.  The result
/// always lies in `[0, 1]` per component.
pub fn send_ray(
    world: &HittablesList,
    ray: Ray,
    depth: i32,
    rng: &mut rand::rngs::StdRng,
) -> (c: Color)
    requires
        world.wf(),
    ensures
        depth <= 0 ==> c == v3(0, 0, 0),
        color_unit(c),
        (depth > 0 && closest_hit_spec(
            world.objects@,
            ray,
            SHADOW_ACNE_EPS as int,
            FX_INFINITY as int,
        ) is None) ==> c == background_spec(ray.direction),
        (depth > 0 && (match closest_hit_spec(
            world.objects@,
            ray,
            SHADOW_ACNE_EPS as int,
            FX_INFINITY as int,
        ) {
            Some(rec) => absorbs_spec(ray, rec),
            None => false,
        })) ==> c == v3(0, 0, 0),
    decreases depth,
{
    if depth <= 0 {
        return Vec3::zero();
    }
    match world.hit(&ray, SHADOW_ACNE_EPS, FX_INFINITY) {
        Some(record) => {
            proof {
                let i = choose|i: int|
                    0 <= i < world.objects@.len() && #[trigger] sphere_solution(
                        world.objects@[i],
                        ray,
                        SHADOW_ACNE_EPS as int,
                        FX_INFINITY as int,
                    ) == Some(record.t as int) && record == crate::types::sphere_record_spec(
                        world.objects@[i],
                        ray,
                        record.t as int,
                    );
                assert(record.material == world.objects@[i].material);
                assert(record.material.wf());
            }
            match record.material.scatter(ray, record, rng) {
                Some((deflected_ray, attenuation)) => {
                    let recursed = send_ray(world, deflected_ray, depth - 1, rng);
                    let c = attenuation.mul(recursed);
                    proof {
                        lemma_fx_mul_unit(attenuation.x as int, recursed.x as int);
                        lemma_fx_mul_unit(attenuation.y as int, recursed.y as int);
                        lemma_fx_mul_unit(attenuation.z as int, recursed.z as int);
                    }
                    c
                },
                None => Vec3::zero(),
            }
        },
        None => background(ray.direction),
    }
}

/// The gamma-2, clamped, `[0, 255]`-scaled output value of one
/// accumulated color component: `sqrt(c / samples)` clamped to just
/// below one, then scaled by 256.
pub open spec fn gamma_spec(c: int, samples: int) -> int {
    div_t(256 * clamp_spec(fx_sqrt(div_t(c, samples)), 0, (FX_ONE - 1) as int), FX_ONE as int)
}

/// Transform one accumulated component into an output channel value;
/// the result always lies in `[0, 255]`, whatever the input.
pub fn gamma_component(c: i64, samples_per_pixel: usize) -> (o: i64)
    requires
        1 <= samples_per_pixel <= 1_000_000_000,
    ensures
        o == gamma_spec(c as int, samples_per_pixel as int),
        0 <= o <= 255,
{
    let divisor = samples_per_pixel as i64;
    let mean = c / divisor;
    proof {
        vstd::arithmetic::div_mod::lemma_div_pos_is_pos(crate::math::abs_int(c as int), divisor as int);
        vstd::arithmetic::div_mod::lemma_div_nonincreasing(crate::math::abs_int(c as int), divisor as int);
        assert(mean == div_t(c as int, divisor as int));
    }
    let r = sqrt_fx(mean);
    let cl = clamp_num(r, 0, FX_ONE - 1);
    let o = (256 * cl) / FX_ONE;
    proof {
        assert(0 <= cl <= FX_ONE - 1);
        vstd::arithmetic::div_mod::lemma_div_pos_is_pos(256 * (cl as int), FX_ONE as int);
        crate::math::lemma_div_t_mono(256 * (cl as int), 16776960, FX_ONE as int);
        vstd::arithmetic::div_mod::lemma_fundamental_div_mod_converse_div(16776960, 65536, 255, 65280);
        assert(o == gamma_spec(c as int, samples_per_pixel as int));
    }
    o
}

/// One output line `R G B` (newline-terminated) for one pixel.
pub open spec fn line_spec(c: Color, samples: int) -> Seq<char> {
    crate::text::dec_rep(gamma_spec(c.x as int, samples)) + seq![' '] + crate::text::dec_rep(
        gamma_spec(c.y as int, samples),
    ) + seq![' '] + crate::text::dec_rep(gamma_spec(c.z as int, samples)) + seq!['\n']
}

/// The raster header: the magic `P3`, the dimensions, and the maximum
/// channel value.
pub open spec fn ppm_header(width: int, height: int) -> Seq<char> {
    seq!['P', '3', '\n'] + crate::text::dec_rep(width) + seq![' '] + crate::text::dec_rep(height)
        + seq!['\n', '2', '5', '5', '\n']
}

/// The first `k` pixel lines of the row starting at `base`.
pub open spec fn ppm_cells(pix: Seq<Color>, base: int, k: int, samples: int) -> Seq<char>
    decreases k,
{
    if k <= 0 {
        Seq::empty()
    } else {
        ppm_cells(pix, base, k - 1, samples) + line_spec(pix[base + k - 1], samples)
    }
}

/// The first `k` rows of output, top scanline (the highest row index)
/// first.
pub open spec fn ppm_rows(pix: Seq<Color>, width: int, height: int, k: int, samples: int) -> Seq<
    char,
>
    decreases k,
{
    if k <= 0 {
        Seq::empty()
    } else {
        ppm_rows(pix, width, height, k - 1, samples) + ppm_cells(
            pix,
            (height - k) * width,
            width,
            samples,
        )
    }
}

/// Append one pixel's output line.
fn push_line(out: &mut String, c: Color, samples_per_pixel: usize)
    requires
        1 <= samples_per_pixel <= 1_000_000_000,
    ensures
        final(out)@ == old(out)@ + line_spec(c, samples_per_pixel as int),
{
    let r = gamma_component(c.x, samples_per_pixel);
    let g = gamma_component(c.y, samples_per_pixel);
    let b = gamma_component(c.z, samples_per_pixel);
    crate::text::append_decimal(out, r as u64);
    out.append(" ");
    crate::text::append_decimal(out, g as u64);
    out.append(" ");
    crate::text::append_decimal(out, b as u64);
    out.append("\n");
    proof {
        reveal_strlit(" ");
        reveal_strlit("\n");
        assert(out@ =~= old(out)@ + line_spec(c, samples_per_pixel as int));
    }
}

/// A row-major pixel buffer with the dimensions of the image.
#[derive(Debug)]
pub struct PPM {
    pub width: usize,
    pub height: usize,
    pub pixels: Vec<Color>,
}

impl PPM {
    /// The buffer holds exactly one color per pixel.
    pub open spec fn wf(&self) -> bool {
        self.pixels@.len() == self.width * self.height
    }

    /// An all-black buffer for a `width` by `height` image.
    pub fn new(width: usize, height: usize) -> (p: PPM)
        requires
            width * height <= 100_000_000,
        ensures
            p.width == width,
            p.height == height,
            p.wf(),
            forall|i: int| 0 <= i < p.pixels@.len() ==> p.pixels@[i] == v3(0, 0, 0),
    {
        let total = width * height;
        let mut pixels: Vec<Color> = Vec::new();
        let mut i: usize = 0;
        while i < total
            invariant
                i <= total,
                pixels@.len() == i,
                forall|j: int| 0 <= j < pixels@.len() ==> pixels@[j] == v3(0, 0, 0),
            decreases total - i,
        {
            pixels.push(Vec3::zero());
            i = i + 1;
        }
        PPM { width, height, pixels }
    }

    /// Write the color of the pixel in column `w` of row `h`.
    pub fn set_pixel(&mut self, w: usize, h: usize, color: Color)
        requires
            old(self).wf(),
            w < old(self).width,
            h < old(self).height,
        ensures
            final(self).width == old(self).width,
            final(self).height == old(self).height,
            final(self).wf(),
            final(self).pixels@ == old(self).pixels@.update(
                h * old(self).width + w,
                color,
            ),
    {
        let n = self.pixels.len();
        proof {
            assert(h * self.width + w < self.width * self.height) by (nonlinear_arith)
                requires
                    w < self.width,
                    h < self.height,
            ;
        }
        let idx = h * self.width + w;
        self.pixels[idx] = color;
    }

    /// Serialize the buffer: the header, then one `R G B` line per
    /// pixel, rows from the top scanline (highest row index) down.
    pub fn print(self, samples_per_pixel: usize) -> (out: String)
        requires
            self.wf(),
            1 <= samples_per_pixel <= 1_000_000_000,
        ensures
            out@ == ppm_header(self.width as int, self.height as int) + ppm_rows(
                self.pixels@,
                self.width as int,
                self.height as int,
                self.height as int,
                samples_per_pixel as int,
            ),
    {
        let mut out = String::new();
        out.append("P3\n");
        crate::text::append_decimal(&mut out, self.width as u64);
        out.append(" ");
        crate::text::append_decimal(&mut out, self.height as u64);
        out.append("\n255\n");
        proof {
            reveal_strlit("P3\n");
            reveal_strlit(" ");
            reveal_strlit("\n255\n");
            assert(out@ =~= ppm_header(self.width as int, self.height as int));
        }
        let ghost header = ppm_header(self.width as int, self.height as int);
        let mut k: usize = 0;
        while k < self.height
            invariant
                self.wf(),
                1 <= samples_per_pixel <= 1_000_000_000,
                k <= self.height,
                header == ppm_header(self.width as int, self.height as int),
                out@ == header + ppm_rows(
                    self.pixels@,
                    self.width as int,
                    self.height as int,
                    k as int,
                    samples_per_pixel as int,
                ),
            decreases self.height - k,
        {
            let h_idx = self.height - 1 - k;
            let n = self.pixels.len();
            proof {
                assert(h_idx * self.width + self.width <= self.width * self.height)
                    by (nonlinear_arith)
                    requires
                        h_idx < self.height,
                ;
            }
            let base = h_idx * self.width;
            let mut w_idx: usize = 0;
            while w_idx < self.width
                invariant
                    self.wf(),
                    1 <= samples_per_pixel <= 1_000_000_000,
                    k < self.height,
                    h_idx == self.height - 1 - k,
                    base == h_idx * self.width,
                    base + self.width <= self.pixels@.len(),
                    w_idx <= self.width,
                    header == ppm_header(self.width as int, self.height as int),
                    out@ == header + ppm_rows(
                        self.pixels@,
                        self.width as int,
                        self.height as int,
                        k as int,
                        samples_per_pixel as int,
                    ) + ppm_cells(
                        self.pixels@,
                        base as int,
                        w_idx as int,
                        samples_per_pixel as int,
                    ),
                decreases self.width - w_idx,
            {
                let pixel = self.pixels[base + w_idx];
                push_line(&mut out, pixel, samples_per_pixel);
                proof {
                    assert(out@ =~= header + ppm_rows(
                        self.pixels@,
                        self.width as int,
                        self.height as int,
                        k as int,
                        samples_per_pixel as int,
                    ) + ppm_cells(
                        self.pixels@,
                        base as int,
                        w_idx + 1,
                        samples_per_pixel as int,
                    ));
                }
                w_idx = w_idx + 1;
            }
            proof {
                assert((self.height - (k + 1)) * self.width == base as int) by (nonlinear_arith)
                    requires
                        base == (self.height - 1 - k) * self.width,
                        k < self.height,
                ;
                assert(out@ =~= header + ppm_rows(
                    self.pixels@,
                    self.width as int,
                    self.height as int,
                    k + 1,
                    samples_per_pixel as int,
                ));
            }
            k = k + 1;
        }
        out
    }
}

/// An accumulated (not yet averaged) pixel color after `n` samples:
/// every component lies in `[0, n]`.
pub open spec fn color_accum_bounded(c: Color, n: int) -> bool {
    &&& 0 <= c.x <= n * FX_ONE
    &&& 0 <= c.y <= n * FX_ONE
    &&& 0 <= c.z <= n * FX_ONE
}

/// Every component of an accumulated pixel is at least `n` halves:
/// what `n` background samples guarantee.  An all-black buffer cannot
/// satisfy this.
pub open spec fn color_accum_floor(c: Color, n: int) -> bool {
    &&& c.x >= n * 32768
    &&& c.y >= n * 32768
    &&& c.z >= n * 32768
}

/// Render one scanline: for every column, average-ready accumulation
/// of `samples_per_pixel` jittered primary-ray estimates.
pub fn render_scanline(
    world: &HittablesList,
    camera: &Camera,
    h: usize,
    image_width: usize,
    image_height: usize,
    samples_per_pixel: usize,
    max_depth: i32,
    rng: &mut rand::rngs::StdRng,
) -> (row: Vec<Color>)
    requires
        world.wf(),
        1 <= image_width <= 1_000_000,
        1 <= image_height <= 1_000_000,
        h < image_height,
        1 <= samples_per_pixel <= 1_000_000,
    ensures
        row@.len() == image_width,
        forall|j: int|
            0 <= j < row@.len() ==> color_accum_bounded(
                #[trigger] row@[j],
                samples_per_pixel as int,
            ),
        (world.objects@.len() == 0 && max_depth > 0) ==> forall|j: int|
            0 <= j < row@.len() ==> color_accum_floor(#[trigger] row@[j], samples_per_pixel as int),
{
    let mut row: Vec<Color> = Vec::new();
    let mut w: usize = 0;
    while w < image_width
        invariant
            world.wf(),
            1 <= image_width <= 1_000_000,
            1 <= image_height <= 1_000_000,
            h < image_height,
            1 <= samples_per_pixel <= 1_000_000,
            w <= image_width,
            row@.len() == w,
            forall|j: int|
                0 <= j < row@.len() ==> color_accum_bounded(
                    #[trigger] row@[j],
                    samples_per_pixel as int,
                ),
            (world.objects@.len() == 0 && max_depth > 0) ==> forall|j: int|
                0 <= j < row@.len() ==> color_accum_floor(
                    #[trigger] row@[j],
                    samples_per_pixel as int,
                ),
        decreases image_width - w,
    {
        let mut pixel = Vec3::zero();
        // A one-pixel-wide (or -tall) image has no jitter span; the
        // divisor is guarded so such an image still renders.
        let denom_w: i64 = if image_width > 1 {
            (image_width - 1) as i64
        } else {
            1
        };
        let denom_h: i64 = if image_height > 1 {
            (image_height - 1) as i64
        } else {
            1
        };
        let mut s: usize = 0;
        while s < samples_per_pixel
            invariant
                world.wf(),
                1 <= image_width <= 1_000_000,
                1 <= image_height <= 1_000_000,
                h < image_height,
                w < image_width,
                1 <= denom_w <= 1_000_000,
                1 <= denom_h <= 1_000_000,
                1 <= samples_per_pixel <= 1_000_000,
                s <= samples_per_pixel,
                color_accum_bounded(pixel, s as int),
                (world.objects@.len() == 0 && max_depth > 0) ==> color_accum_floor(
                    pixel,
                    s as int,
                ),
            decreases samples_per_pixel - s,
        {
            let u = ((w as i64) * FX_ONE + crate::rng::random_num(rng)) / denom_w;
            let v = ((h as i64) * FX_ONE + crate::rng::random_num(rng)) / denom_h;
            let ray = camera.get_ray(u, v, rng);
            let sample = send_ray(world, ray, max_depth, rng);
            proof {
                if world.objects@.len() == 0 && max_depth > 0 {
                    assert(sample == background_spec(ray.direction));
                    lemma_background_floor(ray.direction);
                }
            }
            pixel = pixel.add(sample);
            s = s + 1;
        }
        row.push(pixel);
        w = w + 1;
    }
    row
}

/// Render the whole image on the calling thread, one scanline at a
/// time; each scanline draws from its own generator, seeded from the
/// base seed and the row index, so that a fixed seed reproduces the
/// image exactly whatever the execution order of rows.
pub fn render(
    world: &HittablesList,
    camera: &Camera,
    image_width: usize,
    image_height: usize,
    samples_per_pixel: usize,
    max_depth: i32,
    seed: u64,
) -> (ppm: PPM)
    requires
        world.wf(),
        1 <= image_width <= 1_000_000,
        1 <= image_height <= 1_000_000,
        image_width * image_height <= 100_000_000,
        1 <= samples_per_pixel <= 1_000_000,
    ensures
        ppm.width == image_width,
        ppm.height == image_height,
        ppm.wf(),
        forall|i: int|
            0 <= i < ppm.pixels@.len() ==> color_accum_bounded(
                #[trigger] ppm.pixels@[i],
                samples_per_pixel as int,
            ),
        (world.objects@.len() == 0 && max_depth > 0) ==> forall|i: int|
            0 <= i < ppm.pixels@.len() ==> color_accum_floor(
                #[trigger] ppm.pixels@[i],
                samples_per_pixel as int,
            ),
{
    let mut ppm = PPM::new(image_width, image_height);
    let mut h: usize = 0;
    while h < image_height
        invariant
            world.wf(),
            1 <= image_width <= 1_000_000,
            1 <= image_height <= 1_000_000,
            image_width * image_height <= 100_000_000,
            1 <= samples_per_pixel <= 1_000_000,
            h <= image_height,
            ppm.width == image_width,
            ppm.height == image_height,
            ppm.wf(),
            forall|i: int|
                0 <= i < ppm.pixels@.len() ==> color_accum_bounded(
                    #[trigger] ppm.pixels@[i],
                    samples_per_pixel as int,
                ),
            (world.objects@.len() == 0 && max_depth > 0) ==> forall|i: int|
                0 <= i < h * image_width ==> color_accum_floor(
                    #[trigger] ppm.pixels@[i],
                    samples_per_pixel as int,
                ),
        decreases image_height - h,
    {
        let mut rng = crate::rng::get_rand_generator(seed.wrapping_add(h as u64));
        let row = render_scanline(
            world,
            camera,
            h,
            image_width,
            image_height,
            samples_per_pixel,
            max_depth,
            &mut rng,
        );
        let mut w: usize = 0;
        while w < image_width
            invariant
                w <= image_width,
                h < image_height,
                1 <= samples_per_pixel <= 1_000_000,
                row@.len() == image_width,
                forall|j: int|
                    0 <= j < row@.len() ==> color_accum_bounded(
                        #[trigger] row@[j],
                        samples_per_pixel as int,
                    ),
                (world.objects@.len() == 0 && max_depth > 0) ==> forall|j: int|
                    0 <= j < row@.len() ==> color_accum_floor(
                        #[trigger] row@[j],
                        samples_per_pixel as int,
                    ),
                ppm.width == image_width,
                ppm.height == image_height,
                ppm.wf(),
                forall|i: int|
                    0 <= i < ppm.pixels@.len() ==> color_accum_bounded(
                        #[trigger] ppm.pixels@[i],
                        samples_per_pixel as int,
                    ),
                (world.objects@.len() == 0 && max_depth > 0) ==> forall|i: int|
                    0 <= i < h * image_width + w ==> color_accum_floor(
                        #[trigger] ppm.pixels@[i],
                        samples_per_pixel as int,
                    ),
            decreases image_width - w,
        {
            let ghost prev = ppm.pixels@;
            let ghost idx: int = h * image_width + w;
            let color = row[w];
            ppm.set_pixel(w, h, color);
            proof {
                assert(idx < prev.len()) by (nonlinear_arith)
                    requires
                        idx == h * image_width + w,
                        prev.len() == image_width * image_height,
                        h < image_height,
                        w < image_width,
                ;
                assert(ppm.pixels@ == prev.update(idx, color));
                assert forall|i: int|
                    0 <= i < ppm.pixels@.len() implies color_accum_bounded(
                    #[trigger] ppm.pixels@[i],
                    samples_per_pixel as int,
                ) by {
                    if i == idx {
                        assert(prev.update(idx, color)[idx] == color);
                        assert(color_accum_bounded(row@[w as int], samples_per_pixel as int));
                    } else {
                        assert(prev.update(idx, color)[i] == prev[i]);
                    }
                }
                if world.objects@.len() == 0 && max_depth > 0 {
                    assert forall|i: int|
                        0 <= i < idx + 1 implies color_accum_floor(
                        #[trigger] ppm.pixels@[i],
                        samples_per_pixel as int,
                    ) by {
                        if i == idx {
                            assert(prev.update(idx, color)[idx] == color);
                            assert(color_accum_floor(row@[w as int], samples_per_pixel as int));
                        } else {
                            assert(prev.update(idx, color)[i] == prev[i]);
                        }
                    }
                }
            }
            w = w + 1;
        }
        proof {
            assert(h * image_width + image_width == (h + 1) * image_width) by (nonlinear_arith);
        }
        h = h + 1;
    }
    proof {
        assert(image_height * image_width == image_width * image_height) by (nonlinear_arith);
    }
    ppm
}

/// Collects pixels completed by workers, in whatever order they
/// arrive, and detects completion from the expected pixel count alone
/// (never from producer lifecycle), so draining cannot block once
/// every pixel is in -- also when the image is a single row or a
/// single sample deep.
#[derive(Debug)]
pub struct Assembler {
    pub ppm: PPM,
    pub received: usize,
    pub scanlines_remaining: usize,
}

impl Assembler {
    /// The buffer is intact and no more pixels were counted than
    /// exist.
    pub open spec fn wf(&self) -> bool {
        self.ppm.wf() && self.received <= self.ppm.width * self.ppm.height
    }

    /// An assembler for a fresh image.
    pub fn new(width: usize, height: usize) -> (a: Assembler)
        requires
            width * height <= 100_000_000,
        ensures
            a.wf(),
            a.ppm.width == width,
            a.ppm.height == height,
            a.received == 0,
            a.scanlines_remaining == height,
    {
        Assembler { ppm: PPM::new(width, height), received: 0, scanlines_remaining: height }
    }

    /// Record one completed pixel; the result says whether the image
    /// is now complete, which holds exactly when as many pixels were
    /// recorded as the image has.
    pub fn record_pixel(&mut self, w: usize, h: usize, color: Color) -> (done: bool)
        requires
            old(self).wf(),
            w < old(self).ppm.width,
            h < old(self).ppm.height,
            old(self).received < old(self).ppm.width * old(self).ppm.height,
        ensures
            final(self).wf(),
            final(self).ppm.width == old(self).ppm.width,
            final(self).ppm.height == old(self).ppm.height,
            final(self).ppm.pixels@ == old(self).ppm.pixels@.update(
                h * old(self).ppm.width + w,
                color,
            ),
            final(self).received == old(self).received + 1,
            done <==> final(self).received == final(self).ppm.width * final(self).ppm.height,
            final(self).scanlines_remaining == if h < old(self).scanlines_remaining {
                h as int
            } else {
                old(self).scanlines_remaining as int
            },
    {
        let n = self.ppm.pixels.len();
        self.ppm.set_pixel(w, h, color);
        self.received = self.received + 1;
        if h < self.scanlines_remaining {
            self.scanlines_remaining = h;
        }
        let total = self.ppm.width * self.ppm.height;
        self.received == total
    }

    /// How many scanlines have not yet reported a pixel (a high-water
    /// mark for progress reporting).
    pub fn remaining(&self) -> (r: usize)
        ensures
            r == self.scanlines_remaining,
    {
        self.scanlines_remaining
    }

    /// Hand the finished image over.
    pub fn into_image(self) -> (p: PPM)
        ensures
            p == self.ppm,
    {
        self.ppm
    }
}

/// A small sphere of the random grid: radius one fifth, resting at
/// height one fifth, kept clear of the large metal sphere's spot, and
/// carrying one of the three material shapes the recipe draws (a
/// valid diffuse color; a bright metal with roughness below one half;
/// or glass of index 1.5).
pub open spec fn grid_sphere_shape(s: Sphere) -> bool {
    &&& s.radius == 13107
    &&& s.center.y == 13107
    &&& crate::vec3::magnitude_spec(
        crate::vec3::sub_spec(s.center, v3(4 * (FX_ONE as int), 13107, 0)),
    ) > 58982
    &&& match s.material {
        MaterialKind::Lambertian(l) => l.wf(),
        MaterialKind::Metal(m) => {
            &&& color_unit(m.albedo)
            &&& m.albedo.x >= 32768
            &&& m.albedo.y >= 32768
            &&& m.albedo.z >= 32768
            &&& 0 <= m.fuzz_spec() < 32768
        },
        MaterialKind::Dielectric(d) => d.refraction_index == 98304,
    }
}

/// The demo scene: a large ground sphere under a grid of small random
/// spheres with randomly chosen materials, and three large spheres.
/// Every material produced is well formed, and every grid sphere has
/// the shape the recipe prescribes.
pub fn random_scene(rng: &mut rand::rngs::StdRng) -> (world: HittablesList)
    ensures
        world.wf(),
        world.objects@.len() >= 4,
        forall|i: int|
            1 <= i < world.objects@.len() - 3 ==> grid_sphere_shape(#[trigger] world.objects@[i]),
        world.objects@[0] == (Sphere {
            center: v3(0, -65536000, 0),
            radius: 65536000,
            material: MaterialKind::Lambertian(
                Lambertian { albedo: v3(32768, 32768, 32768) },
            ),
        }),
        world.objects@[world.objects@.len() - 3] == (Sphere {
            center: v3(-4 * (FX_ONE as int), FX_ONE as int, 0),
            radius: FX_ONE,
            material: MaterialKind::Lambertian(
                Lambertian { albedo: v3(26214, 13107, 6554) },
            ),
        }),
        world.objects@[world.objects@.len() - 2] == (Sphere {
            center: v3(4 * (FX_ONE as int), FX_ONE as int, 0),
            radius: FX_ONE,
            material: MaterialKind::Metal(Metal { albedo: v3(45875, 39322, 32768), fuzz: 0 }),
        }),
        world.objects@[world.objects@.len() - 1] == (Sphere {
            center: v3(0, FX_ONE as int, 0),
            radius: FX_ONE,
            material: MaterialKind::Dielectric(Dielectric { refraction_index: 98304 }),
        }),
{
    let mut world = HittablesList::new();
    world.push(
        Sphere {
            center: Vec3::new(0, -65536000, 0),
            radius: 65536000,
            material: MaterialKind::Lambertian(
                Lambertian { albedo: Vec3::new(32768, 32768, 32768) },
            ),
        },
    );
    let mut a: i64 = -11;
    while a < 11
        invariant
            world.wf(),
            world.objects@.len() >= 1,
            world.objects@[0] == (Sphere {
                center: v3(0, -65536000, 0),
                radius: 65536000,
                material: MaterialKind::Lambertian(
                    Lambertian { albedo: v3(32768, 32768, 32768) },
                ),
            }),
            forall|i: int|
                1 <= i < world.objects@.len() ==> grid_sphere_shape(
                    #[trigger] world.objects@[i],
                ),
            -11 <= a <= 11,
        decreases 11 - a,
    {
        let mut b: i64 = -11;
        while b < 11
            invariant
                world.wf(),
                world.objects@.len() >= 1,
                world.objects@[0] == (Sphere {
                    center: v3(0, -65536000, 0),
                    radius: 65536000,
                    material: MaterialKind::Lambertian(
                        Lambertian { albedo: v3(32768, 32768, 32768) },
                    ),
                }),
                forall|i: int|
                    1 <= i < world.objects@.len() ==> grid_sphere_shape(
                        #[trigger] world.objects@[i],
                    ),
                -11 <= a < 11,
                -11 <= b <= 11,
            decreases 11 - b,
        {
            let choose_mat = crate::rng::random_num(rng);
            let center = Vec3::new(
                a * FX_ONE + mul_fx(crate::rng::random_num(rng), 58982),
                13107,
                b * FX_ONE + mul_fx(crate::rng::random_num(rng), 58982),
            );
            if center.sub(Vec3::new(4 * FX_ONE, 13107, 0)).magnitude() > 58982 {
                if choose_mat < 52429 {
                    let r1 = crate::vec3::random_vec3(rng);
                    let r2 = crate::vec3::random_vec3(rng);
                    let albedo = r1.mul(r2);
                    proof {
                        lemma_fx_mul_unit(r1.x as int, r2.x as int);
                        lemma_fx_mul_unit(r1.y as int, r2.y as int);
                        lemma_fx_mul_unit(r1.z as int, r2.z as int);
                    }
                    world.push(
                        Sphere {
                            center,
                            radius: 13107,
                            material: MaterialKind::Lambertian(Lambertian { albedo }),
                        },
                    );
                } else if choose_mat < 62259 {
                    let albedo = crate::vec3::random_vec3_rng(rng, 32768, FX_ONE);
                    let fuzz = crate::rng::random_num_rng(rng, 0, 32768);
                    world.push(
                        Sphere {
                            center,
                            radius: 13107,
                            material: MaterialKind::Metal(Metal::new(albedo, fuzz)),
                        },
                    );
                } else {
                    world.push(
                        Sphere {
                            center,
                            radius: 13107,
                            material: MaterialKind::Dielectric(
                                Dielectric { refraction_index: 98304 },
                            ),
                        },
                    );
                }
            }
            b = b + 1;
        }
        a = a + 1;
    }
    world.push(
        Sphere {
            center: Vec3::new(-4 * FX_ONE, FX_ONE, 0),
            radius: FX_ONE,
            material: MaterialKind::Lambertian(
                Lambertian { albedo: Vec3::new(26214, 13107, 6554) },
            ),
        },
    );
    world.push(
        Sphere {
            center: Vec3::new(4 * FX_ONE, FX_ONE, 0),
            radius: FX_ONE,
            material: MaterialKind::Metal(Metal::new(Vec3::new(45875, 39322, 32768), 0)),
        },
    );
    world.push(
        Sphere {
            center: Vec3::new(0, FX_ONE, 0),
            radius: FX_ONE,
            material: MaterialKind::Dielectric(Dielectric { refraction_index: 98304 }),
        },
    );
    world
}

/// The `[0, 256)`-scaled integer the plain (gamma-free) pixel
/// formatter emits for one component.
pub open spec fn ppm_scale_spec(c: int) -> int {
    div_t(c * 255999, 65536000)
}

/// Scale one nonnegative component by 255.999 and truncate.
fn ppm_scale(c: i64) -> (o: i64)
    requires
        c >= 0,
    ensures
        o == ppm_scale_spec(c as int),
        0 <= o <= c,
{
    let p: i128 = (c as i128) * 255999;
    let q = crate::math::div_trunc_i128(p, 65536000);
    proof {
        vstd::arithmetic::div_mod::lemma_div_pos_is_pos(p as int, 65536000);
        crate::math::lemma_div_t_mono(p as int, (c as int) * 65536000, 65536000);
        lemma_div_t_exact((c as int) * 65536000, 65536000, c as int);
    }
    q as i64
}

impl Color {
    /// One `R G B` line for this color, scaled straight to `[0, 255]`
    /// without gamma correction or averaging.
    pub fn ppm_fmt(self) -> (s: String)
        requires
            self.x >= 0,
            self.y >= 0,
            self.z >= 0,
        ensures
            s@ == crate::text::dec_rep(ppm_scale_spec(self.x as int)) + seq![' ']
                + crate::text::dec_rep(ppm_scale_spec(self.y as int)) + seq![' ']
                + crate::text::dec_rep(ppm_scale_spec(self.z as int)) + seq!['\n'],
    {
        let r = ppm_scale(self.x);
        let g = ppm_scale(self.y);
        let b = ppm_scale(self.z);
        let mut s = String::new();
        crate::text::append_decimal(&mut s, r as u64);
        s.append(" ");
        crate::text::append_decimal(&mut s, g as u64);
        s.append(" ");
        crate::text::append_decimal(&mut s, b as u64);
        s.append("\n");
        proof {
            reveal_strlit(" ");
            reveal_strlit("\n");
            assert(s@ =~= crate::text::dec_rep(ppm_scale_spec(self.x as int)) + seq![' ']
                + crate::text::dec_rep(ppm_scale_spec(self.y as int)) + seq![' ']
                + crate::text::dec_rep(ppm_scale_spec(self.z as int)) + seq!['\n']);
        }
        s
    }
}

} // verus!