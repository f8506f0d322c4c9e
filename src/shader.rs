//! The two-stage shader contract and the triangle fill that drives it.
use vstd::prelude::*;

use crate::canvas::{Canvas, Color, DepthBuffer};
use crate::geometry::{Bary, Vec3i};
use crate::raster::{PixelSource, scan, scanned, serves_covered};
use crate::transform::{Vec4i, fits_i32, floor_div, project_spec, v4p2v3};

verus! {

/// A shading strategy. For each face the vertex stage is called once for each
/// of the three vertex slots; it returns the vertex in homogeneous clip
/// coordinates and records what the fragment stage of that face reads. The
/// fragment stage then gives each covered pixel its color, or asks for the
/// write to be discarded.
pub trait IShader: Sized {
    /// The face `i_face` can be read from the bound mesh.
    spec fn has_face(&self, i_face: int) -> bool;

    /// What the vertex stage returns for slot `nth_vert` of face `i_face`;
    /// `None` when the transformed vertex does not fit in 64 bits.
    spec fn vertex_spec(&self, i_face: int, nth_vert: int) -> Option<Vec4i>;

    /// The shader after the vertex stage has recorded slot `nth_vert` of face
    /// `i_face`.
    spec fn recorded(&self, i_face: int, nth_vert: int) -> Self;

    /// The fragment stage can answer for every point inside the triangle.
    spec fn ready(&self) -> bool;

    /// The fragment stage can answer for the weights `bar` of a covered pixel.
    spec fn serves(&self, bar: Bary) -> bool;

    /// The color for the weights `bar`, and whether the write is discarded.
    spec fn fragment_spec(&self, bar: Bary) -> (Color, bool);

    fn vertex(&mut self, i_face: usize, nth_vert: usize) -> (r: Option<Vec4i>)
        requires
            nth_vert < 3,
            old(self).has_face(i_face as int),
        ensures
            r == old(self).vertex_spec(i_face as int, nth_vert as int),
            *final(self) == old(self).recorded(i_face as int, nth_vert as int),
    ;

    /// Returns whether the fragment stage is ready.
    fn can_shade(&self) -> (r: bool)
        ensures
            r == self.ready(),
    ;

    fn fragment(&self, bar: Bary, color: &mut Color) -> (discard: bool)
        requires
            self.ready(),
            self.serves(bar),
            bar.wf(),
            bar.inside(),
        ensures
            (*final(color), discard) == self.fragment_spec(bar),
    ;
}

/// Mixes one coordinate of the three vertices by the weights `bc`, over
/// their common denominator.
pub open spec fn mix(x0: int, x1: int, x2: int, bc: Bary) -> int {
    x0 * bc.u + x1 * bc.v + x2 * bc.w
}

pub open spec fn clamp_byte(v: int) -> int {
    if v < 0 {
        0
    } else if v > 255 {
        255
    } else {
        v
    }
}

/// The perspective-correct depth of the point with weights `bc`: `z` and `w`
/// interpolated linearly and divided, plus one half, rounded down and clamped
/// to `[0, 255]`. Where the interpolated `w` is zero the quotient is infinite
/// with the sign of `z` (and taken as 0 when `z` is zero too).
pub open spec fn frag_depth(a: Vec4i, b: Vec4i, c: Vec4i, bc: Bary) -> i64 {
    let z = mix(a.z as int, b.z as int, c.z as int, bc);
    let w = mix(a.w as int, b.w as int, c.w as int, bc);
    if w == 0 {
        if z > 0 {
            255
        } else {
            0
        }
    } else {
        clamp_byte(floor_div(2 * z + w, 2 * w)) as i64
    }
}

/// The `z` and `w` components of a homogeneous point fit in 32 bits.
pub open spec fn depth_fits(p: Vec4i) -> bool {
    fits_i32(p.z as int) && fits_i32(p.w as int)
}

proof fn lemma_mix_bound(x0: int, x1: int, x2: int, bc: Bary)
    requires
        bc.wf(),
        bc.inside(),
        fits_i32(x0),
        fits_i32(x1),
        fits_i32(x2),
    ensures
        -0x1_0000_0000_0000_0000_0000_0000 <= mix(x0, x1, x2, bc) <= 0x1_0000_0000_0000_0000_0000_0000,
{
    crate::fill::lemma_weighted_sum_bounds(x0, x1, x2, bc, i32::MIN as int, i32::MAX as int);
    assert(-0x1_0000_0000_0000_0000_0000_0000 <= i32::MIN * bc.den && i32::MAX * bc.den
        <= 0x1_0000_0000_0000_0000_0000_0000) by (nonlinear_arith)
        requires
            0 < bc.den <= 0x2_0000_0000_0000_0000,
    ;
}

/// A quotient by a positive divisor lies between zero and the dividend.
pub proof fn lemma_quotient_magnitude(n: int, d: int)
    requires
        d > 0,
    ensures
        n >= 0 ==> 0 <= n / d <= n,
        n < 0 ==> n <= n / d < 0,
{
    vstd::arithmetic::div_mod::lemma_fundamental_div_mod(n, d);
    let q = n / d;
    let r = n % d;
    assert(n >= 0 ==> 0 <= q <= n) by (nonlinear_arith)
        requires
            d > 0,
            n == d * q + r,
            0 <= r < d,
    ;
    assert(n < 0 ==> n <= q < 0) by (nonlinear_arith)
        requires
            d > 0,
            n == d * q + r,
            0 <= r < d,
    ;
}

fn frag_depth_exec(a: Vec4i, b: Vec4i, c: Vec4i, bc: Bary) -> (d: i64)
    requires
        bc.wf(),
        bc.inside(),
        depth_fits(a),
        depth_fits(b),
        depth_fits(c),
    ensures
        d == frag_depth(a, b, c, bc),
{
    proof {
        lemma_mix_bound(a.z as int, b.z as int, c.z as int, bc);
        lemma_mix_bound(a.w as int, b.w as int, c.w as int, bc);
        crate::fill::lemma_weighted_term_bound(a.z as int, bc.u as int, bc.den as int);
        crate::fill::lemma_weighted_term_bound(b.z as int, bc.v as int, bc.den as int);
        crate::fill::lemma_weighted_term_bound(c.z as int, bc.w as int, bc.den as int);
        crate::fill::lemma_weighted_term_bound(a.w as int, bc.u as int, bc.den as int);
        crate::fill::lemma_weighted_term_bound(b.w as int, bc.v as int, bc.den as int);
        crate::fill::lemma_weighted_term_bound(c.w as int, bc.w as int, bc.den as int);
        crate::fill::lemma_weighted_sum_bounds(a.z as int, b.z as int, c.z as int, bc, i32::MIN as int, i32::MAX as int);
        crate::fill::lemma_weighted_sum_bounds(a.w as int, b.w as int, c.w as int, bc, i32::MIN as int, i32::MAX as int);
    }
    let z = a.z as i128 * bc.u + b.z as i128 * bc.v + c.z as i128 * bc.w;
    let w = a.w as i128 * bc.u + b.w as i128 * bc.v + c.w as i128 * bc.w;
    if w == 0 {
        if z > 0 {
            255
        } else {
            0
        }
    } else {
        let (n, d) = if w > 0 {
            (2 * z + w, 2 * w)
        } else {
            (-(2 * z + w), -(2 * w))
        };
        assert(z == mix(a.z as int, b.z as int, c.z as int, bc));
        assert(w == mix(a.w as int, b.w as int, c.w as int, bc));
        assert(n as int / d as int == floor_div(2 * z + w, 2 * w));
        proof {
            lemma_quotient_magnitude(n as int, d as int);
        }
        let q = match n.checked_div_euclid(d) {
            Some(q) => q,
            None => 0,
        };
        assert(q == floor_div(2 * z + w, 2 * w));
        if q < 0 {
            0
        } else if q > 255 {
            255
        } else {
            q as i64
        }
    }
}

/// Feeds a shader's fragment stage to the triangle scan, with the
/// perspective-correct depth of the triangle's homogeneous vertices.
pub struct ShaderFill<'a, S: IShader> {
    pub a: Vec4i,
    pub b: Vec4i,
    pub c: Vec4i,
    pub shader: &'a S,
}

impl<'a, S: IShader> PixelSource for ShaderFill<'a, S> {
    open spec fn ready(&self) -> bool {
        &&& self.shader.ready()
        &&& depth_fits(self.a)
        &&& depth_fits(self.b)
        &&& depth_fits(self.c)
    }

    open spec fn serves(&self, bc: Bary) -> bool {
        self.shader.serves(bc)
    }

    open spec fn depth_at(&self, bc: Bary) -> i64 {
        frag_depth(self.a, self.b, self.c, bc)
    }

    open spec fn shade_at(&self, bc: Bary) -> (Color, bool) {
        self.shader.fragment_spec(bc)
    }

    fn depth(&self, bc: Bary) -> (z: i64) {
        frag_depth_exec(self.a, self.b, self.c, bc)
    }

    fn shade(&self, bc: Bary) -> (r: (Color, bool)) {
        let mut color = Color { r: 0, g: 0, b: 0, a: 0 };
        let discard = self.shader.fragment(bc, &mut color);
        (color, discard)
    }
}

/// The screen triangle of three homogeneous vertices can be filled: each
/// projects to 32-bit screen coordinates and has 32-bit `z` and `w`.
pub open spec fn drawable(a: Vec4i, b: Vec4i, c: Vec4i) -> bool {
    &&& project_spec(a) is Some
    &&& project_spec(b) is Some
    &&& project_spec(c) is Some
    &&& depth_fits(a)
    &&& depth_fits(b)
    &&& depth_fits(c)
}

/// The shader's fragment stage serves every pixel of a `width` by `height`
/// grid that the projected triangle covers, when the triangle is drawable.
pub open spec fn shader_serves_covered<S: IShader>(
    a: Vec4i,
    b: Vec4i,
    c: Vec4i,
    shader: &S,
    width: int,
    height: int,
) -> bool {
    drawable(a, b, c) ==> serves_covered(
        project_spec(a)->Some_0,
        project_spec(b)->Some_0,
        project_spec(c)->Some_0,
        &(ShaderFill { a, b, c, shader }),
        width,
        height,
    )
}

fn depth_fits_exec(p: Vec4i) -> (r: bool)
    ensures
        r == depth_fits(p),
{
    i32::MIN as i64 <= p.z && p.z <= i32::MAX as i64 && i32::MIN as i64 <= p.w && p.w <= i32::MAX as i64
}

/// Fills the triangle with homogeneous vertices `a_4d b_4d c_4d` through the
/// fragment stage of `shader`. Coverage is tested on the projected screen
/// triangle; depth is interpolated perspective-correctly; a pixel whose depth
/// is at least the stored one stores it, and takes the fragment's color
/// unless the fragment discards it. A triangle that is not `drawable` leaves
/// both buffers unchanged.
pub fn triangle_with_shader<S: IShader>(
    a_4d: Vec4i,
    b_4d: Vec4i,
    c_4d: Vec4i,
    shader: &S,
    image: &mut Canvas,
    zbuffer: &mut DepthBuffer,
)
    requires
        shader.ready(),
        shader_serves_covered(a_4d, b_4d, c_4d, shader, old(image).width as int, old(image).height as int),
        old(image).wf(),
        old(zbuffer).wf(),
        old(zbuffer).width == old(image).width,
        old(zbuffer).height == old(image).height,
    ensures
        drawable(a_4d, b_4d, c_4d) ==> scanned(
            project_spec(a_4d)->Some_0,
            project_spec(b_4d)->Some_0,
            project_spec(c_4d)->Some_0,
            &(ShaderFill { a: a_4d, b: b_4d, c: c_4d, shader }),
            *old(image),
            *old(zbuffer),
            *final(image),
            *final(zbuffer),
        ),
        !drawable(a_4d, b_4d, c_4d) ==> *final(image) == *old(image) && *final(zbuffer) == *old(zbuffer),
{
    let a = match v4p2v3(a_4d) {
        Some(p) => p,
        None => {
            return;
        },
    };
    let b = match v4p2v3(b_4d) {
        Some(p) => p,
        None => {
            return;
        },
    };
    let c = match v4p2v3(c_4d) {
        Some(p) => p,
        None => {
            return;
        },
    };
    if !depth_fits_exec(a_4d) || !depth_fits_exec(b_4d) || !depth_fits_exec(c_4d) {
        return;
    }
    let src = ShaderFill { a: a_4d, b: b_4d, c: c_4d, shader };
    scan(a, b, c, &src, image, zbuffer);
}

} // verus!
