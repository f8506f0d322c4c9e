//! Concrete shading strategies over a mesh: Gouraud lighting with a diffuse
//! texture, and depth rendered as gray for a shadow map.
use vstd::prelude::*;

use crate::canvas::{Canvas, Color};
use crate::fill::{
    lemma_div_bounds, lemma_weighted_sum_bounds, lemma_weighted_term_bound, scale_channel_exec, shade_texel, texel,
    uv_in_range, uv_mix_in_range,
};
use crate::geometry::{Bary, Vec2i, Vec3i};
use crate::shader::IShader;
use crate::transform::{Mat4, Vec4i, apply, project_spec, transform, v4p2v3};

verus! {

/// The fixed-point scale of normals and light directions: `UNIT` stands
/// for 1.
pub const UNIT: i32 = 256;

/// The depth that the shadow shader renders as white.
pub const SHADOW_DEPTH: i32 = 2000;

/// A mesh vertex: position in model units, unit normal and texture
/// coordinates in fixed point.
#[derive(Clone, Copy, Debug, PartialEq, Eq, Structural)]
pub struct Vertex {
    pub position: Vec3i,
    pub normal: Vec3i,
    pub texture: Vec2i,
}

/// A triangle mesh: a vertex table and three vertex indices per face.
#[derive(Clone, Debug)]
pub struct Mesh {
    pub vertices: Vec<Vertex>,
    pub indices: Vec<u32>,
}

impl Mesh {
    /// The three indices of face `i_face` exist and name vertices of the table.
    pub open spec fn has_face(&self, i_face: int) -> bool {
        &&& 0 <= i_face
        &&& 3 * i_face + 2 < self.indices@.len()
        &&& forall|k: int| 0 <= k < 3 ==> (#[trigger] self.indices@[3 * i_face + k]) < self.vertices@.len()
    }

    /// The vertex in slot `nth` of face `i_face`.
    pub open spec fn corner(&self, i_face: int, nth: int) -> Vertex {
        self.vertices@[self.indices@[3 * i_face + nth] as int]
    }

    /// The number of whole faces.
    pub fn face_count(&self) -> (n: usize)
        ensures
            n == self.indices@.len() / 3,
    {
        self.indices.len() / 3
    }

    /// Returns whether face `i_face` can be read.
    pub fn check_face(&self, i_face: usize) -> (r: bool)
        ensures
            r == self.has_face(i_face as int),
    {
        let n = self.indices.len();
        if i_face >= n / 3 {
            return false;
        }
        let base = i_face * 3;
        let mut k: usize = 0;
        while k < 3
            invariant
                base == 3 * i_face,
                base + 2 < n,
                n == self.indices@.len(),
                k <= 3,
                forall|j: int| 0 <= j < k ==> (#[trigger] self.indices@[3 * i_face + j]) < self.vertices@.len(),
            decreases 3 - k,
        {
            if self.indices[base + k] as usize >= self.vertices.len() {
                return false;
            }
            k = k + 1;
        }
        true
    }

    fn corner_exec(&self, i_face: usize, nth: usize) -> (v: Vertex)
        requires
            self.has_face(i_face as int),
            nth < 3,
        ensures
            v == self.corner(i_face as int, nth as int),
    {
        let n = self.indices.len();
        assert(i_face * 3 + nth < n);
        let i = self.indices[i_face * 3 + nth] as usize;
        self.vertices[i]
    }
}

/// Three values, one for each vertex slot of a face.
#[derive(Clone, Copy, Debug, PartialEq, Eq)]
pub struct Triple<T> {
    pub v0: T,
    pub v1: T,
    pub v2: T,
}

impl<T: Copy> Triple<T> {
    /// The triple with slot `i` replaced by `x`.
    pub open spec fn with(self, i: int, x: T) -> Self {
        if i == 0 {
            Triple { v0: x, v1: self.v1, v2: self.v2 }
        } else if i == 1 {
            Triple { v0: self.v0, v1: x, v2: self.v2 }
        } else {
            Triple { v0: self.v0, v1: self.v1, v2: x }
        }
    }

    pub fn set(&mut self, i: usize, x: T)
        requires
            i < 3,
        ensures
            *final(self) == old(self).with(i as int, x),
    {
        if i == 0 {
            self.v0 = x;
        } else if i == 1 {
            self.v1 = x;
        } else {
            self.v2 = x;
        }
    }
}

/// The homogeneous point of a model-space position.
pub open spec fn point(p: Vec3i) -> Vec4i {
    Vec4i { x: p.x as i64, y: p.y as i64, z: p.z as i64, w: 1 }
}

/// The position `p` taken through `model_view`, then `projection`, then
/// `view_port`; `None` when a step does not fit in 64 bits.
pub open spec fn clip_of(view_port: Mat4, projection: Mat4, model_view: Mat4, p: Vec3i) -> Option<Vec4i> {
    match apply(model_view, point(p)) {
        Some(e) => match apply(projection, e) {
            Some(c) => apply(view_port, c),
            None => None,
        },
        None => None,
    }
}

fn clip_exec(view_port: &Mat4, projection: &Mat4, model_view: &Mat4, p: Vec3i) -> (r: Option<Vec4i>)
    ensures
        r == clip_of(*view_port, *projection, *model_view, p),
{
    let e = match transform(model_view, Vec4i { x: p.x as i64, y: p.y as i64, z: p.z as i64, w: 1 }) {
        Some(e) => e,
        None => {
            return None;
        },
    };
    let c = match transform(projection, e) {
        Some(c) => c,
        None => {
            return None;
        },
    };
    transform(view_port, c)
}

/// The diffuse light intensity of a vertex, in units of 1/255: the dot
/// product of its normal with the light direction, never below zero.
pub open spec fn diffuse_intensity(normal: Vec3i, light: Vec3i) -> i64 {
    let d = normal.x * light.x + normal.y * light.y + normal.z * light.z;
    if d < 0 {
        0
    } else {
        (d * 255 / (UNIT * UNIT)) as i64
    }
}

/// The largest intensity that `diffuse_intensity` gives.
pub const MAX_INTENSITY: i64 = 0x400_0000_0000_0000;

proof fn lemma_dot3_bound(n: Vec3i, l: Vec3i)
    ensures
        -0x3_0000_0000_0000_0000 <= n.x * l.x + n.y * l.y + n.z * l.z <= 0x3_0000_0000_0000_0000,
        -0x1_0000_0000_0000_0000 <= n.x * l.x <= 0x1_0000_0000_0000_0000,
        -0x1_0000_0000_0000_0000 <= n.y * l.y <= 0x1_0000_0000_0000_0000,
        -0x1_0000_0000_0000_0000 <= n.z * l.z <= 0x1_0000_0000_0000_0000,
{
    crate::geometry::lemma_product_bound(n.x as int, l.x as int);
    crate::geometry::lemma_product_bound(n.y as int, l.y as int);
    crate::geometry::lemma_product_bound(n.z as int, l.z as int);
    assert(-0x3_0000_0000_0000_0000 <= n.x * l.x + n.y * l.y + n.z * l.z <= 0x3_0000_0000_0000_0000)
        by (nonlinear_arith)
        requires
            -0x8000_0000 <= n.x <= 0x8000_0000,
            -0x8000_0000 <= n.y <= 0x8000_0000,
            -0x8000_0000 <= n.z <= 0x8000_0000,
            -0x8000_0000 <= l.x <= 0x8000_0000,
            -0x8000_0000 <= l.y <= 0x8000_0000,
            -0x8000_0000 <= l.z <= 0x8000_0000,
    ;
}

fn diffuse_intensity_exec(normal: Vec3i, light: Vec3i) -> (r: i64)
    ensures
        r == diffuse_intensity(normal, light),
        0 <= r <= MAX_INTENSITY,
{
    proof {
        lemma_dot3_bound(normal, light);
    }
    let d = normal.x as i128 * light.x as i128 + normal.y as i128 * light.y as i128 + normal.z as i128
        * light.z as i128;
    if d < 0 {
        0
    } else {
        proof {
            lemma_div_bounds(d * 255, 65536, 0, MAX_INTENSITY as int);
        }
        (d * 255 / 65536) as i64
    }
}

/// Returns whether a texture coordinate lies in `[0, 1)` on both axes.
pub fn uv_ok(t: Vec2i) -> (r: bool)
    ensures
        r == uv_in_range(t),
{
    0 <= t.x && t.x < crate::fill::UV_ONE && 0 <= t.y && t.y < crate::fill::UV_ONE
}

/// The weighted mean of three values, rounded down.
pub open spec fn mean(x0: int, x1: int, x2: int, bc: Bary) -> int {
    (x0 * bc.u + x1 * bc.v + x2 * bc.w) / (bc.den as int)
}

fn mean_intensity_exec(i0: i64, i1: i64, i2: i64, bc: Bary) -> (r: i64)
    requires
        bc.wf(),
        bc.inside(),
        0 <= i0 <= MAX_INTENSITY,
        0 <= i1 <= MAX_INTENSITY,
        0 <= i2 <= MAX_INTENSITY,
    ensures
        r == mean(i0 as int, i1 as int, i2 as int, bc),
        0 <= r <= MAX_INTENSITY,
{
    proof {
        lemma_weighted_sum_bounds(i0 as int, i1 as int, i2 as int, bc, 0, MAX_INTENSITY as int);
        lemma_intensity_term(i0 as int, bc.u as int, bc.den as int);
        lemma_intensity_term(i1 as int, bc.v as int, bc.den as int);
        lemma_intensity_term(i2 as int, bc.w as int, bc.den as int);
        lemma_div_bounds(i0 * bc.u + i1 * bc.v + i2 * bc.w, bc.den as int, 0, MAX_INTENSITY as int);
    }
    let s = i0 as i128 * bc.u + i1 as i128 * bc.v + i2 as i128 * bc.w;
    (s / bc.den) as i64
}

proof fn lemma_intensity_term(i: int, u: int, den: int)
    requires
        0 <= i <= MAX_INTENSITY,
        0 <= u <= den <= 0x2_0000_0000_0000_0000,
    ensures
        0 <= i * u <= 0x800_0000_0000_0000_0000_0000_0000_0000,
{
    assert(0 <= i * u <= 0x800_0000_0000_0000_0000_0000_0000_0000) by (nonlinear_arith)
        requires
            0 <= i <= 0x400_0000_0000_0000,
            0 <= u <= 0x2_0000_0000_0000_0000,
    ;
}

/// Diffuse lighting computed per vertex and interpolated across the face,
/// modulating a texture.
pub struct GouraudShader<'a> {
    pub model: &'a Mesh,
    pub diffuse: &'a Canvas,
    /// The light intensity at each vertex slot, in units of 1/255.
    pub varying_intensity: Triple<i64>,
    /// The texture coordinates at each vertex slot.
    pub varying_uv: Triple<Vec2i>,
    pub view_port: Mat4,
    pub projection: Mat4,
    pub model_view: Mat4,
    pub light_dir: Vec3i,
}

impl<'a> GouraudShader<'a> {
    /// A shader over `model` and its texture `diffuse`, with full light at
    /// every slot and the texture coordinates of the identity matrix's columns,
    /// `(1, 0)`, `(0, 1)` and `(0, 0)`, until the vertex stage records a face.
    pub fn new(
        model: &'a Mesh,
        diffuse: &'a Canvas,
        model_view: Mat4,
        projection: Mat4,
        view_port: Mat4,
        light_dir: Vec3i,
    ) -> (s: Self)
        ensures
            s.model == model,
            s.diffuse == diffuse,
            s.model_view == model_view,
            s.projection == projection,
            s.view_port == view_port,
            s.light_dir == light_dir,
            s.varying_intensity == (Triple { v0: 255i64, v1: 255i64, v2: 255i64 }),
            s.varying_uv == (Triple {
                v0: Vec2i { x: crate::fill::UV_ONE, y: 0 },
                v1: Vec2i { x: 0, y: crate::fill::UV_ONE },
                v2: Vec2i { x: 0, y: 0 },
            }),
    {
        GouraudShader {
            model,
            diffuse,
            varying_intensity: Triple { v0: 255, v1: 255, v2: 255 },
            varying_uv: Triple {
                v0: Vec2i { x: crate::fill::UV_ONE, y: 0 },
                v1: Vec2i { x: 0, y: crate::fill::UV_ONE },
                v2: Vec2i { x: 0, y: 0 },
            },
            view_port,
            projection,
            model_view,
            light_dir,
        }
    }
}

impl<'a> GouraudShader<'a> {
    /// Returns whether the three recorded texture coordinates lie in
    /// `[0, 1)`; when they do, the fragment stage serves every point inside the
    /// triangle.
    pub fn uvs_in_range(&self) -> (r: bool)
        ensures
            r == (uv_in_range(self.varying_uv.v0) && uv_in_range(self.varying_uv.v1) && uv_in_range(
                self.varying_uv.v2,
            )),
            r ==> forall|bar: Bary| bar.wf() && bar.inside() ==> #[trigger] self.serves(bar),
    {
        let t = self.varying_uv;
        let r = uv_ok(t.v0) && uv_ok(t.v1) && uv_ok(t.v2);
        proof {
            if r {
                assert forall|bar: Bary| bar.wf() && bar.inside() implies #[trigger] self.serves(bar) by {
                    crate::fill::lemma_vertex_uv_in_range(t.v0, t.v1, t.v2, bar);
                }
            }
        }
        r
    }
}

impl<'a> IShader for GouraudShader<'a> {
    open spec fn has_face(&self, i_face: int) -> bool {
        self.model.has_face(i_face)
    }

    open spec fn vertex_spec(&self, i_face: int, nth_vert: int) -> Option<Vec4i> {
        clip_of(self.view_port, self.projection, self.model_view, self.model.corner(i_face, nth_vert).position)
    }

    open spec fn recorded(&self, i_face: int, nth_vert: int) -> Self {
        let v = self.model.corner(i_face, nth_vert);
        GouraudShader {
            varying_intensity: self.varying_intensity.with(nth_vert, diffuse_intensity(v.normal, self.light_dir)),
            varying_uv: self.varying_uv.with(nth_vert, v.texture),
            ..*self
        }
    }

    open spec fn ready(&self) -> bool {
        &&& self.diffuse.wf()
        &&& self.diffuse.width > 0
        &&& self.diffuse.height > 0
        &&& 0 <= self.varying_intensity.v0 <= MAX_INTENSITY
        &&& 0 <= self.varying_intensity.v1 <= MAX_INTENSITY
        &&& 0 <= self.varying_intensity.v2 <= MAX_INTENSITY
    }

    /// The recorded texture coordinates, mixed by `bar`, lie in the texture.
    open spec fn serves(&self, bar: Bary) -> bool {
        uv_mix_in_range(self.varying_uv.v0, self.varying_uv.v1, self.varying_uv.v2, bar)
    }

    open spec fn fragment_spec(&self, bar: Bary) -> (Color, bool) {
        let i = self.varying_intensity;
        let t = self.varying_uv;
        let intensity = mean(i.v0 as int, i.v1 as int, i.v2 as int, bar);
        let tx = texel(t.v0.x as int, t.v1.x as int, t.v2.x as int, bar, self.diffuse.width as int);
        let ty = texel(t.v0.y as int, t.v1.y as int, t.v2.y as int, bar, self.diffuse.height as int);
        (shade_texel(self.diffuse.at(tx, ty), intensity), false)
    }

    fn can_shade(&self) -> (r: bool) {
        let i = self.varying_intensity;
        self.diffuse.is_wf() && self.diffuse.width > 0 && self.diffuse.height > 0 && 0 <= i.v0 && i.v0
            <= MAX_INTENSITY && 0 <= i.v1 && i.v1 <= MAX_INTENSITY && 0 <= i.v2 && i.v2 <= MAX_INTENSITY
    }

    fn vertex(&mut self, i_face: usize, nth_vert: usize) -> (r: Option<Vec4i>) {
        let v = self.model.corner_exec(i_face, nth_vert);
        let gl_v = clip_exec(&self.view_port, &self.projection, &self.model_view, v.position);
        let intensity = diffuse_intensity_exec(v.normal, self.light_dir);
        self.varying_intensity.set(nth_vert, intensity);
        self.varying_uv.set(nth_vert, v.texture);
        gl_v
    }

    fn fragment(&self, bar: Bary, color: &mut Color) -> (discard: bool) {
        let i = self.varying_intensity;
        let t = self.varying_uv;
        let intensity = mean_intensity_exec(i.v0, i.v1, i.v2, bar);
        let tx = crate::fill::texel_exec(t.v0.x, t.v1.x, t.v2.x, bar, self.diffuse.width);
        let ty = crate::fill::texel_exec(t.v0.y, t.v1.y, t.v2.y, bar, self.diffuse.height);
        let p = self.diffuse.get_pixel(tx, ty);
        *color = Color {
            r: scale_channel_exec(p.r, intensity),
            g: scale_channel_exec(p.g, intensity),
            b: scale_channel_exec(p.b, intensity),
            a: 255,
        };
        false
    }
}

/// The gray level of a depth: `255 * z / SHADOW_DEPTH`, rounded down and
/// clamped to `[0, 255]`, for the depth `z` interpolated from the three slots.
pub open spec fn shadow_level(z0: int, z1: int, z2: int, bc: Bary) -> u8 {
    let v = (255 * (z0 * bc.u + z1 * bc.v + z2 * bc.w)) / (bc.den * SHADOW_DEPTH);
    if v < 0 {
        0
    } else if v > 255 {
        255
    } else {
        v as u8
    }
}

/// Renders depth as a gray level, for a shadow map seen from the light.
pub struct ShadowShader<'a> {
    pub model: &'a Mesh,
    /// The projected screen position at each vertex slot.
    pub varying_tri: Triple<Vec3i>,
    pub view_port: Mat4,
    pub projection: Mat4,
    pub model_view: Mat4,
}

impl<'a> ShadowShader<'a> {
    /// A shader over `model`, with every slot at the origin until the vertex
    /// stage records a face.
    pub fn new(model: &'a Mesh, model_view: Mat4, projection: Mat4, view_port: Mat4) -> (s: Self)
        ensures
            s.model == model,
            s.model_view == model_view,
            s.projection == projection,
            s.view_port == view_port,
            s.varying_tri == (Triple { v0: Vec3i { x: 0, y: 0, z: 0 }, v1: Vec3i { x: 0, y: 0, z: 0 }, v2: Vec3i { x: 0, y: 0, z: 0 } }),
    {
        let zero = Vec3i { x: 0, y: 0, z: 0 };
        ShadowShader { model, varying_tri: Triple { v0: zero, v1: zero, v2: zero }, view_port, projection, model_view }
    }
}

impl<'a> IShader for ShadowShader<'a> {
    open spec fn has_face(&self, i_face: int) -> bool {
        self.model.has_face(i_face)
    }

    /// The clip position, when it also projects to 32-bit screen coordinates.
    open spec fn vertex_spec(&self, i_face: int, nth_vert: int) -> Option<Vec4i> {
        match clip_of(self.view_port, self.projection, self.model_view, self.model.corner(i_face, nth_vert).position) {
            Some(c) => if project_spec(c) is Some {
                Some(c)
            } else {
                None
            },
            None => None,
        }
    }

    open spec fn recorded(&self, i_face: int, nth_vert: int) -> Self {
        match clip_of(self.view_port, self.projection, self.model_view, self.model.corner(i_face, nth_vert).position) {
            Some(c) => match project_spec(c) {
                Some(p) => ShadowShader { varying_tri: self.varying_tri.with(nth_vert, p), ..*self },
                None => *self,
            },
            None => *self,
        }
    }

    open spec fn ready(&self) -> bool {
        true
    }

    open spec fn serves(&self, bar: Bary) -> bool {
        true
    }

    open spec fn fragment_spec(&self, bar: Bary) -> (Color, bool) {
        let t = self.varying_tri;
        let g = shadow_level(t.v0.z as int, t.v1.z as int, t.v2.z as int, bar);
        (Color { r: g, g: g, b: g, a: 255 }, false)
    }

    fn can_shade(&self) -> (r: bool) {
        true
    }

    fn vertex(&mut self, i_face: usize, nth_vert: usize) -> (r: Option<Vec4i>) {
        let v = self.model.corner_exec(i_face, nth_vert);
        let gl_v = match clip_exec(&self.view_port, &self.projection, &self.model_view, v.position) {
            Some(c) => c,
            None => {
                return None;
            },
        };
        match v4p2v3(gl_v) {
            Some(p) => {
                self.varying_tri.set(nth_vert, p);
                Some(gl_v)
            },
            None => None,
        }
    }

    fn fragment(&self, bar: Bary, color: &mut Color) -> (discard: bool) {
        let t = self.varying_tri;
        proof {
            lemma_weighted_term_bound(t.v0.z as int, bar.u as int, bar.den as int);
            lemma_weighted_term_bound(t.v1.z as int, bar.v as int, bar.den as int);
            lemma_weighted_term_bound(t.v2.z as int, bar.w as int, bar.den as int);
        }
        let s = t.v0.z as i128 * bar.u + t.v1.z as i128 * bar.v + t.v2.z as i128 * bar.w;
        proof {
            crate::shader::lemma_quotient_magnitude(255 * s, bar.den * 2000);
        }
        let v = match (255 * s).checked_div_euclid(bar.den * 2000) {
            Some(q) => q,
            None => 0,
        };
        let g: u8 = if v < 0 {
            0
        } else if v > 255 {
            255
        } else {
            v as u8
        };
        *color = Color { r: g, g, b: g, a: 255 };
        false
    }
}

} // verus!
