//! Flat-colored and textured triangle fill with depth interpolated in screen
//! space.
use vstd::prelude::*;

use crate::canvas::{Canvas, Color, DepthBuffer};
use crate::geometry::{Bary, Vec2i, Vec3i};
use crate::raster::{PixelSource, scan, scanned, serves_covered};

verus! {

/// The fixed-point scale of texture coordinates: `UV_ONE` stands for 1.
pub const UV_ONE: i32 = 65536;

/// The fixed-point scale of light intensities: `INTENSITY_ONE` stands for 1.
pub const INTENSITY_ONE: u8 = 255;

/// `lo * den <= z0 * u + z1 * v + z2 * w <= hi * den` for weights that are
/// non-negative and sum to `den`.
pub proof fn lemma_weighted_sum_bounds(z0: int, z1: int, z2: int, bc: Bary, lo: int, hi: int)
    requires
        bc.wf(),
        bc.inside(),
        lo <= z0 <= hi,
        lo <= z1 <= hi,
        lo <= z2 <= hi,
    ensures
        lo * bc.den <= z0 * bc.u + z1 * bc.v + z2 * bc.w <= hi * bc.den,
{
    let (u, v, w, d) = (bc.u as int, bc.v as int, bc.w as int, bc.den as int);
    assert(lo * u <= z0 * u <= hi * u) by (nonlinear_arith)
        requires
            lo <= z0 <= hi,
            u >= 0,
    ;
    assert(lo * v <= z1 * v <= hi * v) by (nonlinear_arith)
        requires
            lo <= z1 <= hi,
            v >= 0,
    ;
    assert(lo * w <= z2 * w <= hi * w) by (nonlinear_arith)
        requires
            lo <= z2 <= hi,
            w >= 0,
    ;
    assert(lo * d == lo * u + lo * v + lo * w && hi * d == hi * u + hi * v + hi * w) by (nonlinear_arith)
        requires
            d == u + v + w,
    ;
}

/// A quotient by a positive divisor keeps the bounds that the dividend has
/// in multiples of the divisor.
pub proof fn lemma_div_bounds(s: int, d: int, lo: int, hi: int)
    requires
        d > 0,
        lo * d <= s <= hi * d,
    ensures
        lo <= s / d <= hi,
{
    let q = s / d;
    let r = s % d;
    assert(s == d * q + r && 0 <= r < d) by {
        vstd::arithmetic::div_mod::lemma_fundamental_div_mod(s, d);
    }
    assert(lo <= q <= hi) by (nonlinear_arith)
        requires
            d > 0,
            lo * d <= s <= hi * d,
            s == d * q + r,
            0 <= r < d,
    ;
}

/// `0 <= n < k * d` puts the quotient `n / d` in `0 .. k`.
pub proof fn lemma_div_below(n: int, d: int, k: int)
    requires
        d > 0,
        0 <= n < k * d,
    ensures
        0 <= n / d < k,
{
    let q = n / d;
    let r = n % d;
    assert(n == d * q + r && 0 <= r < d) by {
        vstd::arithmetic::div_mod::lemma_fundamental_div_mod(n, d);
    }
    assert(0 <= q < k) by (nonlinear_arith)
        requires
            d > 0,
            0 <= n < k * d,
            n == d * q + r,
            0 <= r < d,
    ;
}

/// The depth of the point with weights `bc`: the weighted mean of the three
/// vertex depths, rounded down.
pub open spec fn mean_depth(a: Vec3i, b: Vec3i, c: Vec3i, bc: Bary) -> i64 {
    ((a.z * bc.u + b.z * bc.v + c.z * bc.w) / (bc.den as int)) as i64
}

/// Computes `mean_depth`.
fn mean_depth_exec(a: Vec3i, b: Vec3i, c: Vec3i, bc: Bary) -> (z: i64)
    requires
        bc.wf(),
        bc.inside(),
    ensures
        z == mean_depth(a, b, c, bc),
        i32::MIN <= z <= i32::MAX,
{
    proof {
        lemma_weighted_sum_bounds(a.z as int, b.z as int, c.z as int, bc, i32::MIN as int, i32::MAX as int);
        lemma_weighted_term_bound(a.z as int, bc.u as int, bc.den as int);
        lemma_weighted_term_bound(b.z as int, bc.v as int, bc.den as int);
        lemma_weighted_term_bound(c.z as int, bc.w as int, bc.den as int);
        lemma_div_bounds(
            a.z * bc.u + b.z * bc.v + c.z * bc.w,
            bc.den as int,
            i32::MIN as int,
            i32::MAX as int,
        );
    }
    let s = a.z as i128 * bc.u + b.z as i128 * bc.v + c.z as i128 * bc.w;
    match s.checked_div_euclid(bc.den) {
        Some(q) => q as i64,
        None => 0,
    }
}

/// A 32-bit value times a weight of a well-formed weight vector stays within
/// 2^97 in magnitude.
pub proof fn lemma_weighted_term_bound(z: int, u: int, den: int)
    requires
        i32::MIN <= z <= i32::MAX,
        0 <= u <= den <= 0x2_0000_0000_0000_0000,
    ensures
        -0x2_0000_0000_0000_0000_0000_0000 <= z * u <= 0x2_0000_0000_0000_0000_0000_0000,
{
    assert(-0x2_0000_0000_0000_0000_0000_0000 <= z * u <= 0x2_0000_0000_0000_0000_0000_0000)
        by (nonlinear_arith)
        requires
            -0x8000_0000 <= z <= 0x8000_0000,
            0 <= u <= 0x2_0000_0000_0000_0000,
    ;
}

/// A single color with depth interpolated between the vertices.
pub struct FlatFill {
    pub a: Vec3i,
    pub b: Vec3i,
    pub c: Vec3i,
    pub color: Color,
}

impl PixelSource for FlatFill {
    open spec fn ready(&self) -> bool {
        true
    }

    open spec fn depth_at(&self, bc: Bary) -> i64 {
        mean_depth(self.a, self.b, self.c, bc)
    }

    open spec fn serves(&self, bc: Bary) -> bool {
        true
    }

    open spec fn shade_at(&self, bc: Bary) -> (Color, bool) {
        (self.color, false)
    }

    fn depth(&self, bc: Bary) -> (z: i64) {
        mean_depth_exec(self.a, self.b, self.c, bc)
    }

    fn shade(&self, bc: Bary) -> (r: (Color, bool)) {
        (self.color, false)
    }
}

/// A texture coordinate lies in `[0, 1)` on both axes.
pub open spec fn uv_in_range(t: Vec2i) -> bool {
    0 <= t.x < UV_ONE && 0 <= t.y < UV_ONE
}

/// The texel that the coordinates `t0 t1 t2`, mixed with the weights `bc`,
/// pick from an axis of `size` texels: the mixed coordinate times `size`,
/// rounded down.
pub open spec fn texel(t0: int, t1: int, t2: int, bc: Bary, size: int) -> int {
    ((t0 * bc.u + t1 * bc.v + t2 * bc.w) * size) / (bc.den * UV_ONE)
}

/// A color channel scaled by an intensity in units of 1/255, rounded down
/// and saturated to `[0, 255]`.
pub open spec fn scale_channel(channel: u8, intensity: int) -> u8 {
    let v = channel * intensity / (INTENSITY_ONE as int);
    if v < 0 {
        0
    } else if v > 255 {
        255
    } else {
        v as u8
    }
}

/// The color of a texel lit with `intensity`; the result is opaque.
pub open spec fn shade_texel(p: Color, intensity: int) -> Color {
    Color {
        r: scale_channel(p.r, intensity),
        g: scale_channel(p.g, intensity),
        b: scale_channel(p.b, intensity),
        a: 255,
    }
}

/// Computes `scale_channel`.
pub fn scale_channel_exec(channel: u8, intensity: i64) -> (r: u8)
    ensures
        r == scale_channel(channel, intensity as int),
{
    if intensity <= 0 {
        assert(channel * intensity / 255 <= 0) by (nonlinear_arith)
            requires
                intensity <= 0,
                0 <= channel,
        ;
        return 0;
    }
    proof {
        assert(0 <= channel * intensity <= 255 * 0x7fff_ffff_ffff_ffff) by (nonlinear_arith)
            requires
                0 < intensity <= 0x7fff_ffff_ffff_ffff,
                0 <= channel <= 255,
        ;
    }
    let v = channel as i128 * intensity as i128 / 255;
    if v > 255 {
        255
    } else {
        v as u8
    }
}

/// Computes `shade_texel`.
pub fn light(p: Color, intensity: i64) -> (r: Color)
    ensures
        r == shade_texel(p, intensity as int),
{
    Color {
        r: scale_channel_exec(p.r, intensity),
        g: scale_channel_exec(p.g, intensity),
        b: scale_channel_exec(p.b, intensity),
        a: 255,
    }
}

/// The texture coordinates `ta tb tc`, mixed by the weights `bc`, lie in
/// `[0, 1)` on both axes.
pub open spec fn uv_mix_in_range(ta: Vec2i, tb: Vec2i, tc: Vec2i, bc: Bary) -> bool {
    &&& 0 <= ta.x * bc.u + tb.x * bc.v + tc.x * bc.w < UV_ONE * bc.den
    &&& 0 <= ta.y * bc.u + tb.y * bc.v + tc.y * bc.w < UV_ONE * bc.den
}

/// Texture coordinates in range at the three vertices stay in range at every
/// point inside the triangle.
pub proof fn lemma_vertex_uv_in_range(ta: Vec2i, tb: Vec2i, tc: Vec2i, bc: Bary)
    requires
        uv_in_range(ta),
        uv_in_range(tb),
        uv_in_range(tc),
        bc.wf(),
        bc.inside(),
    ensures
        uv_mix_in_range(ta, tb, tc, bc),
{
    lemma_weighted_sum_bounds(ta.x as int, tb.x as int, tc.x as int, bc, 0, UV_ONE - 1);
    lemma_weighted_sum_bounds(ta.y as int, tb.y as int, tc.y as int, bc, 0, UV_ONE - 1);
    assert((UV_ONE - 1) * bc.den < UV_ONE * bc.den && 0 * bc.den == 0) by (nonlinear_arith)
        requires
            bc.den > 0,
    ;
}

/// Computes `texel` for well-formed weights of a point inside the triangle.
pub(crate) fn texel_exec(t0: i32, t1: i32, t2: i32, bc: Bary, size: u32) -> (r: u32)
    requires
        bc.wf(),
        bc.inside(),
        0 <= t0 * bc.u + t1 * bc.v + t2 * bc.w < UV_ONE * bc.den,
        size > 0,
    ensures
        r == texel(t0 as int, t1 as int, t2 as int, bc, size as int),
        r < size,
{
    let ghost s = t0 * bc.u + t1 * bc.v + t2 * bc.w;
    let ghost d = bc.den * UV_ONE;
    proof {
        lemma_weighted_term_bound(t0 as int, bc.u as int, bc.den as int);
        lemma_weighted_term_bound(t1 as int, bc.v as int, bc.den as int);
        lemma_weighted_term_bound(t2 as int, bc.w as int, bc.den as int);
        assert(0 <= s * size < size * d && s * size <= 0x100_0000_0000_0000_0000_0000_0000_0000
            && d <= 0x4_0000_0000_0000_0000_0000)
            by (nonlinear_arith)
            requires
                0 <= s < UV_ONE * bc.den,
                d == bc.den * UV_ONE,
                bc.den <= 0x2_0000_0000_0000_0000,
                bc.den > 0,
                0 < size <= 0xffff_ffff,
        ;
        lemma_div_below(s * size, d, size as int);
    }
    let sum = t0 as i128 * bc.u + t1 as i128 * bc.v + t2 as i128 * bc.w;
    match (sum * size as i128).checked_div_euclid(bc.den * UV_ONE as i128) {
        Some(q) => q as u32,
        None => 0,
    }
}

/// A texture sampled at interpolated coordinates and lit with one intensity,
/// with depth interpolated between the vertices.
pub struct TextureFill<'a> {
    pub a: Vec3i,
    pub b: Vec3i,
    pub c: Vec3i,
    pub ta: Vec2i,
    pub tb: Vec2i,
    pub tc: Vec2i,
    /// The light intensity in units of 1/255.
    pub intensity: i64,
    pub texture: &'a Canvas,
}

impl<'a> PixelSource for TextureFill<'a> {
    open spec fn ready(&self) -> bool {
        &&& self.texture.wf()
        &&& self.texture.width > 0
        &&& self.texture.height > 0
    }

    open spec fn serves(&self, bc: Bary) -> bool {
        uv_mix_in_range(self.ta, self.tb, self.tc, bc)
    }

    open spec fn depth_at(&self, bc: Bary) -> i64 {
        mean_depth(self.a, self.b, self.c, bc)
    }

    open spec fn shade_at(&self, bc: Bary) -> (Color, bool) {
        let tx = texel(self.ta.x as int, self.tb.x as int, self.tc.x as int, bc, self.texture.width as int);
        let ty = texel(self.ta.y as int, self.tb.y as int, self.tc.y as int, bc, self.texture.height as int);
        (shade_texel(self.texture.at(tx, ty), self.intensity as int), false)
    }

    fn depth(&self, bc: Bary) -> (z: i64) {
        mean_depth_exec(self.a, self.b, self.c, bc)
    }

    fn shade(&self, bc: Bary) -> (r: (Color, bool)) {
        let tx = texel_exec(self.ta.x, self.tb.x, self.tc.x, bc, self.texture.width);
        let ty = texel_exec(self.ta.y, self.tb.y, self.tc.y, bc, self.texture.height);
        let p = self.texture.get_pixel(tx, ty);
        (light(p, self.intensity), false)
    }
}

/// Fills the triangle `a b c` with the texture `diffuse`, sampled at the
/// texture coordinates `ta tb tc` of the vertices mixed by the pixel's
/// weights, each channel scaled by `intensity` over `INTENSITY_ONE` and
/// saturated. Pixels are written and depths stored as by `triangle`. The mixed
/// texture coordinates must lie in `[0, 1)` at every pixel that the triangle
/// covers on the canvas (`lemma_vertex_uv_in_range`: it is enough that they do
/// at the vertices).
pub fn triangle_with_texture(
    a: Vec3i,
    b: Vec3i,
    c: Vec3i,
    ta: Vec2i,
    tb: Vec2i,
    tc: Vec2i,
    image: &mut Canvas,
    intensity: i64,
    zbuffer: &mut DepthBuffer,
    diffuse: &Canvas,
)
    requires
        old(image).wf(),
        old(zbuffer).wf(),
        old(zbuffer).width == old(image).width,
        old(zbuffer).height == old(image).height,
        diffuse.wf(),
        diffuse.width > 0,
        diffuse.height > 0,
        serves_covered(
            a,
            b,
            c,
            &(TextureFill { a, b, c, ta, tb, tc, intensity, texture: diffuse }),
            old(image).width as int,
            old(image).height as int,
        ),
    ensures
        scanned(
            a,
            b,
            c,
            &(TextureFill { a, b, c, ta, tb, tc, intensity, texture: diffuse }),
            *old(image),
            *old(zbuffer),
            *final(image),
            *final(zbuffer),
        ),
{
    let src = TextureFill { a, b, c, ta, tb, tc, intensity, texture: diffuse };
    scan(a, b, c, &src, image, zbuffer);
}

/// Fills the triangle `t0 t1 t2` with `color`. A pixel of the canvas is
/// written when it lies in the triangle and its interpolated depth is at least
/// the stored one; its depth is then stored.
pub fn triangle(t0: Vec3i, t1: Vec3i, t2: Vec3i, image: &mut Canvas, color: Color, zbuffer: &mut DepthBuffer)
    requires
        old(image).wf(),
        old(zbuffer).wf(),
        old(zbuffer).width == old(image).width,
        old(zbuffer).height == old(image).height,
    ensures
        scanned(
            t0,
            t1,
            t2,
            &(FlatFill { a: t0, b: t1, c: t2, color }),
            *old(image),
            *old(zbuffer),
            *final(image),
            *final(zbuffer),
        ),
{
    let src = FlatFill { a: t0, b: t1, c: t2, color };
    scan(t0, t1, t2, &src, image, zbuffer);
}

} // verus!
