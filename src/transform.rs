//! Homogeneous coordinates and 4x4 transforms with integer entries. A
//! homogeneous point `(x, y, z, w)` stands for `(x / w, y / w, z / w)`, so a
//! matrix and any non-zero multiple of it are the same transform; this is
//! what lets the viewport and the perspective projection have exact integer
//! entries.
use vstd::prelude::*;

use crate::geometry::Vec3i;

verus! {

/// A homogeneous point or vector.
#[derive(Clone, Copy, Debug, PartialEq, Eq, Structural)]
pub struct Vec4i {
    pub x: i64,
    pub y: i64,
    pub z: i64,
    pub w: i64,
}

/// A 4x4 matrix, stored by rows.
#[derive(Clone, Copy, Debug, PartialEq, Eq, Structural)]
pub struct Mat4 {
    pub r0: Vec4i,
    pub r1: Vec4i,
    pub r2: Vec4i,
    pub r3: Vec4i,
}

pub open spec fn fits_i64(v: int) -> bool {
    i64::MIN <= v <= i64::MAX
}

pub open spec fn fits_i32(v: int) -> bool {
    i32::MIN <= v <= i32::MAX
}

pub open spec fn dot4(a: Vec4i, b: Vec4i) -> int {
    a.x * b.x + a.y * b.y + a.z * b.z + a.w * b.w
}

/// The exact product `m * v` fits in 64-bit components.
pub open spec fn apply_fits(m: Mat4, v: Vec4i) -> bool {
    &&& fits_i64(dot4(m.r0, v))
    &&& fits_i64(dot4(m.r1, v))
    &&& fits_i64(dot4(m.r2, v))
    &&& fits_i64(dot4(m.r3, v))
}

/// `r` is the exact product `m * v`.
pub open spec fn is_apply(m: Mat4, v: Vec4i, r: Vec4i) -> bool {
    &&& r.x == dot4(m.r0, v)
    &&& r.y == dot4(m.r1, v)
    &&& r.z == dot4(m.r2, v)
    &&& r.w == dot4(m.r3, v)
}

/// The exact product `m * v`, or `None` when a component does not fit in
/// 64 bits.
pub open spec fn apply(m: Mat4, v: Vec4i) -> Option<Vec4i> {
    if apply_fits(m, v) {
        Some(
            Vec4i {
                x: dot4(m.r0, v) as i64,
                y: dot4(m.r1, v) as i64,
                z: dot4(m.r2, v) as i64,
                w: dot4(m.r3, v) as i64,
            },
        )
    } else {
        None
    }
}

proof fn lemma_product_range(a: i64, b: i64)
    ensures
        -0x4000_0000_0000_0000_0000_0000_0000_0000 + 0x8000_0000_0000_0000 <= a * b
            <= 0x4000_0000_0000_0000_0000_0000_0000_0000,
{
    assert(-0x4000_0000_0000_0000_0000_0000_0000_0000 + 0x8000_0000_0000_0000 <= a * b
        <= 0x4000_0000_0000_0000_0000_0000_0000_0000) by (nonlinear_arith)
        requires
            -0x8000_0000_0000_0000 <= a <= 0x7fff_ffff_ffff_ffff,
            -0x8000_0000_0000_0000 <= b <= 0x7fff_ffff_ffff_ffff,
    ;
}

/// The dot product of two homogeneous vectors, or `None` when it does not
/// fit in 64 bits.
pub fn dot4_checked(a: Vec4i, b: Vec4i) -> (r: Option<i64>)
    ensures
        r == if fits_i64(dot4(a, b)) { Some(dot4(a, b) as i64) } else { None },
{
    proof {
        lemma_product_range(a.x, b.x);
        lemma_product_range(a.y, b.y);
        lemma_product_range(a.z, b.z);
        lemma_product_range(a.w, b.w);
    }
    let m0 = a.x as i128 * b.x as i128;
    let m1 = a.y as i128 * b.y as i128;
    let m2 = a.z as i128 * b.z as i128;
    let m3 = a.w as i128 * b.w as i128;
    let s = match m0.checked_add(m1) {
        Some(s) => s,
        None => {
            return None;
        },
    };
    let t = match s.checked_add(m2) {
        Some(t) => t,
        None => {
            return None;
        },
    };
    let u = match t.checked_add(m3) {
        Some(u) => u,
        None => {
            return None;
        },
    };
    if u < i64::MIN as i128 || u > i64::MAX as i128 {
        None
    } else {
        Some(u as i64)
    }
}

/// Applies `m` to `v`, or returns `None` when a component of the exact
/// product does not fit in 64 bits.
pub fn transform(m: &Mat4, v: Vec4i) -> (r: Option<Vec4i>)
    ensures
        r == apply(*m, v),
{
    let x = match dot4_checked(m.r0, v) {
        Some(x) => x,
        None => {
            return None;
        },
    };
    let y = match dot4_checked(m.r1, v) {
        Some(y) => y,
        None => {
            return None;
        },
    };
    let z = match dot4_checked(m.r2, v) {
        Some(z) => z,
        None => {
            return None;
        },
    };
    let w = match dot4_checked(m.r3, v) {
        Some(w) => w,
        None => {
            return None;
        },
    };
    Some(Vec4i { x, y, z, w })
}

/// The viewport transform that takes normalized device coordinates in
/// `[-1, 1]` to the pixels `[x, x + w] x [y, y + h]`, and depths in
/// `[-1, 1]` to `[0, 255]`. Its entries are twice those of the transform,
/// which the homogeneous divide cancels.
pub open spec fn viewport_spec(x: i32, y: i32, w: i32, h: i32) -> Mat4 {
    Mat4 {
        r0: Vec4i { x: w as i64, y: 0, z: 0, w: (2 * x + w) as i64 },
        r1: Vec4i { x: 0, y: h as i64, z: 0, w: (2 * y + h) as i64 },
        r2: Vec4i { x: 0, y: 0, z: 255, w: 255 },
        r3: Vec4i { x: 0, y: 0, z: 0, w: 2 },
    }
}

/// Builds the viewport transform onto the rectangle at `(x, y)` of size
/// `w` by `h`.
pub fn viewport(x: i32, y: i32, w: i32, h: i32) -> (m: Mat4)
    ensures
        m == viewport_spec(x, y, w, h),
{
    Mat4 {
        r0: Vec4i { x: w as i64, y: 0, z: 0, w: 2 * x as i64 + w as i64 },
        r1: Vec4i { x: 0, y: h as i64, z: 0, w: 2 * y as i64 + h as i64 },
        r2: Vec4i { x: 0, y: 0, z: 255, w: 255 },
        r3: Vec4i { x: 0, y: 0, z: 0, w: 2 },
    }
}

/// The perspective projection for a camera at `distance` from the point it
/// looks at: the identity with `-1 / distance` in row 3, column 2, here
/// multiplied through by `distance`.
pub open spec fn projection_spec(distance: i32) -> Mat4 {
    Mat4 {
        r0: Vec4i { x: distance as i64, y: 0, z: 0, w: 0 },
        r1: Vec4i { x: 0, y: distance as i64, z: 0, w: 0 },
        r2: Vec4i { x: 0, y: 0, z: distance as i64, w: 0 },
        r3: Vec4i { x: 0, y: 0, z: -1i64, w: distance as i64 },
    }
}

/// Builds the perspective projection for a camera at `distance` from the
/// point it looks at.
pub fn projection(distance: i32) -> (m: Mat4)
    ensures
        m == projection_spec(distance),
{
    Mat4 {
        r0: Vec4i { x: distance as i64, y: 0, z: 0, w: 0 },
        r1: Vec4i { x: 0, y: distance as i64, z: 0, w: 0 },
        r2: Vec4i { x: 0, y: 0, z: distance as i64, w: 0 },
        r3: Vec4i { x: 0, y: 0, z: -1, w: distance as i64 },
    }
}

/// The viewport transform takes each corner `(sx, sy)` of normalized device
/// space, with `sx` and `sy` each `-1` or `1`, exactly onto the corner of the
/// pixel rectangle: `x` or `x + w` across, `y` or `y + h` down.
pub proof fn lemma_viewport_corners(x: i32, y: i32, w: i32, h: i32, sx: i64, sy: i64, r: Vec4i)
    requires
        sx == -1 || sx == 1,
        sy == -1 || sy == 1,
        is_apply(viewport_spec(x, y, w, h), Vec4i { x: sx, y: sy, z: 0, w: 1 }, r),
    ensures
        r.w == 2,
        r.x / r.w == if sx == 1 { x + w } else { x as int },
        r.y / r.w == if sy == 1 { y + h } else { y as int },
{
    assert(r.x == w * sx + 2 * x + w);
    assert(r.y == h * sy + 2 * y + h);
    assert(w * sx == if sx == 1 { w as int } else { -w }) by (nonlinear_arith)
        requires
            sx == 1 || sx == -1,
    ;
    assert(h * sy == if sy == 1 { h as int } else { -h }) by (nonlinear_arith)
        requires
            sy == 1 || sy == -1,
    ;
    if sx == 1 {
        assert(r.x == 2 * (x + w));
    } else {
        assert(r.x == 2 * x);
    }
    if sy == 1 {
        assert(r.y == 2 * (y + h));
    } else {
        assert(r.y == 2 * y);
    }
}

/// Rounds `a / b` down, for `b != 0`.
pub open spec fn floor_div(a: int, b: int) -> int {
    if b > 0 {
        a / b
    } else {
        (-a) / (-b)
    }
}

fn floor_div_exec(a: i64, b: i64) -> (r: Option<i32>)
    requires
        b != 0,
    ensures
        r == if fits_i32(floor_div(a as int, b as int)) {
            Some(floor_div(a as int, b as int) as i32)
        } else {
            None
        },
{
    let (n, d) = if b > 0 {
        (a as i128, b as i128)
    } else {
        (-(a as i128), -(b as i128))
    };
    match n.checked_div_euclid(d) {
        Some(q) => {
            if q < i32::MIN as i128 || q > i32::MAX as i128 {
                None
            } else {
                Some(q as i32)
            }
        },
        None => None,
    }
}

/// The Cartesian point of the homogeneous point `v`, each coordinate divided
/// by `w` and rounded down, when `w` is not zero and the point fits in 32-bit
/// coordinates.
pub open spec fn project_spec(v: Vec4i) -> Option<Vec3i> {
    if v.w != 0 && fits_i32(floor_div(v.x as int, v.w as int)) && fits_i32(floor_div(v.y as int, v.w as int))
        && fits_i32(floor_div(v.z as int, v.w as int)) {
        Some(
            Vec3i {
                x: floor_div(v.x as int, v.w as int) as i32,
                y: floor_div(v.y as int, v.w as int) as i32,
                z: floor_div(v.z as int, v.w as int) as i32,
            },
        )
    } else {
        None
    }
}

/// Projects a homogeneous point to Cartesian coordinates by dividing by `w`.
pub fn v4p2v3(v: Vec4i) -> (r: Option<Vec3i>)
    ensures
        r == project_spec(v),
{
    if v.w == 0 {
        return None;
    }
    let x = match floor_div_exec(v.x, v.w) {
        Some(x) => x,
        None => {
            return None;
        },
    };
    let y = match floor_div_exec(v.y, v.w) {
        Some(y) => y,
        None => {
            return None;
        },
    };
    let z = match floor_div_exec(v.z, v.w) {
        Some(z) => z,
        None => {
            return None;
        },
    };
    Some(Vec3i { x, y, z })
}

/// Drops the `w` component of a homogeneous vector (a direction, which is not
/// divided by `w`), when the rest fits in 32-bit coordinates.
pub fn vec4_to_3(v: Vec4i) -> (r: Option<Vec3i>)
    ensures
        r == if fits_i32(v.x as int) && fits_i32(v.y as int) && fits_i32(v.z as int) {
            Some(Vec3i { x: v.x as i32, y: v.y as i32, z: v.z as i32 })
        } else {
            None
        },
{
    if v.x < i32::MIN as i64 || v.x > i32::MAX as i64 || v.y < i32::MIN as i64 || v.y > i32::MAX as i64
        || v.z < i32::MIN as i64 || v.z > i32::MAX as i64 {
        None
    } else {
        Some(Vec3i { x: v.x as i32, y: v.y as i32, z: v.z as i32 })
    }
}

/// A 3-vector with wide integer components.
#[derive(Clone, Copy, Debug, PartialEq, Eq, Structural)]
pub struct Vec3w {
    pub x: i128,
    pub y: i128,
    pub z: i128,
}

impl Vec3w {
    pub open spec fn view(&self) -> (int, int, int) {
        (self.x as int, self.y as int, self.z as int)
    }
}

pub open spec fn cross(a: (int, int, int), b: (int, int, int)) -> (int, int, int) {
    (a.1 * b.2 - a.2 * b.1, a.2 * b.0 - a.0 * b.2, a.0 * b.1 - a.1 * b.0)
}

pub open spec fn dot3(a: (int, int, int), b: (int, int, int)) -> int {
    a.0 * b.0 + a.1 * b.1 + a.2 * b.2
}

pub open spec fn v3(p: Vec3i) -> (int, int, int) {
    (p.x as int, p.y as int, p.z as int)
}

/// The camera axes of `lookat`, before each is scaled to unit length: `z`
/// points from the focal point to the eye, `x` is `up` crossed with `z`, and
/// `y` is `z` crossed with `x`.
#[derive(Clone, Copy, Debug, PartialEq, Eq, Structural)]
pub struct Basis {
    pub x: Vec3w,
    pub y: Vec3w,
    pub z: Vec3w,
}

pub open spec fn basis_z(eye: Vec3i, center: Vec3i) -> (int, int, int) {
    (eye.x - center.x, eye.y - center.y, eye.z - center.z)
}

pub open spec fn basis_x(eye: Vec3i, center: Vec3i, up: Vec3i) -> (int, int, int) {
    cross(v3(up), basis_z(eye, center))
}

pub open spec fn basis_y(eye: Vec3i, center: Vec3i, up: Vec3i) -> (int, int, int) {
    cross(basis_z(eye, center), basis_x(eye, center, up))
}

/// `a` crossed with `b` is perpendicular to both.
pub proof fn lemma_cross_perpendicular(a: (int, int, int), b: (int, int, int))
    ensures
        dot3(a, cross(a, b)) == 0,
        dot3(b, cross(a, b)) == 0,
{
    assert(dot3(a, cross(a, b)) == 0) by (nonlinear_arith);
    assert(dot3(b, cross(a, b)) == 0) by (nonlinear_arith);
}

fn cross_exec(a: Vec3w, b: Vec3w) -> (r: Vec3w)
    requires
        -0x4_0000_0000 <= a.x <= 0x4_0000_0000,
        -0x4_0000_0000 <= a.y <= 0x4_0000_0000,
        -0x4_0000_0000 <= a.z <= 0x4_0000_0000,
        -0x4_0000_0000_0000_0000 <= b.x <= 0x4_0000_0000_0000_0000,
        -0x4_0000_0000_0000_0000 <= b.y <= 0x4_0000_0000_0000_0000,
        -0x4_0000_0000_0000_0000 <= b.z <= 0x4_0000_0000_0000_0000,
    ensures
        r@ == cross(a@, b@),
{
    proof {
        lemma_wide_product(a.y as int, b.z as int);
        lemma_wide_product(a.z as int, b.y as int);
        lemma_wide_product(a.z as int, b.x as int);
        lemma_wide_product(a.x as int, b.z as int);
        lemma_wide_product(a.x as int, b.y as int);
        lemma_wide_product(a.y as int, b.x as int);
    }
    Vec3w { x: a.y * b.z - a.z * b.y, y: a.z * b.x - a.x * b.z, z: a.x * b.y - a.y * b.x }
}

proof fn lemma_wide_product(a: int, b: int)
    requires
        -0x4_0000_0000 <= a <= 0x4_0000_0000,
        -0x4_0000_0000_0000_0000 <= b <= 0x4_0000_0000_0000_0000,
    ensures
        -0x10_0000_0000_0000_0000_0000_0000 <= a * b <= 0x10_0000_0000_0000_0000_0000_0000,
{
    assert(-0x10_0000_0000_0000_0000_0000_0000 <= a * b <= 0x10_0000_0000_0000_0000_0000_0000) by (nonlinear_arith)
        requires
            -0x4_0000_0000 <= a <= 0x4_0000_0000,
            -0x4_0000_0000_0000_0000 <= b <= 0x4_0000_0000_0000_0000,
    ;
}

/// The axes of the camera at `eye` looking at `center` with `up` as its
/// upward direction, before normalization.
pub fn lookat_basis(eye: Vec3i, center: Vec3i, up: Vec3i) -> (r: Basis)
    ensures
        r.z@ == basis_z(eye, center),
        r.x@ == basis_x(eye, center, up),
        r.y@ == basis_y(eye, center, up),
{
    let z = Vec3w {
        x: eye.x as i128 - center.x as i128,
        y: eye.y as i128 - center.y as i128,
        z: eye.z as i128 - center.z as i128,
    };
    let u = Vec3w { x: up.x as i128, y: up.y as i128, z: up.z as i128 };
    proof {
        crate::geometry::lemma_product_bound(u.y as int, z.z as int);
        crate::geometry::lemma_product_bound(u.z as int, z.y as int);
        crate::geometry::lemma_product_bound(u.z as int, z.x as int);
        crate::geometry::lemma_product_bound(u.x as int, z.z as int);
        crate::geometry::lemma_product_bound(u.x as int, z.y as int);
        crate::geometry::lemma_product_bound(u.y as int, z.x as int);
    }
    let x = Vec3w { x: u.y * z.z - u.z * z.y, y: u.z * z.x - u.x * z.z, z: u.x * z.y - u.y * z.x };
    let y = cross_exec(z, x);
    Basis { x, y, z }
}

/// The three camera axes of `lookat` are mutually perpendicular, for every
/// eye, focal point and up direction.
pub proof fn lemma_lookat_orthogonal(eye: Vec3i, center: Vec3i, up: Vec3i)
    ensures
        dot3(basis_x(eye, center, up), basis_y(eye, center, up)) == 0,
        dot3(basis_x(eye, center, up), basis_z(eye, center)) == 0,
        dot3(basis_y(eye, center, up), basis_z(eye, center)) == 0,
{
    let z = basis_z(eye, center);
    let x = basis_x(eye, center, up);
    lemma_cross_perpendicular(v3(up), z);
    lemma_cross_perpendicular(z, x);
    assert(dot3(x, basis_y(eye, center, up)) == 0);
    assert(dot3(x, z) == dot3(z, x)) by (nonlinear_arith);
    assert(dot3(basis_y(eye, center, up), z) == dot3(z, basis_y(eye, center, up))) by (nonlinear_arith);
}

} // verus!
