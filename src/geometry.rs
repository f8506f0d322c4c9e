//! Integer points and exact barycentric weights.
use vstd::prelude::*;

verus! {

/// A point on the raster, with an optional depth component.
#[derive(Clone, Copy, Debug, PartialEq, Eq, Structural)]
pub struct Vec3i {
    pub x: i32,
    pub y: i32,
    pub z: i32,
}

/// A point on the raster without depth.
#[derive(Clone, Copy, Debug, PartialEq, Eq, Structural)]
pub struct Vec2i {
    pub x: i32,
    pub y: i32,
}

/// Barycentric weights of a point against a triangle, written as three
/// numerators over one positive common denominator: the weights are
/// `u / den`, `v / den` and `w / den`, attached to the first, second and third
/// vertex.
#[derive(Clone, Copy, Debug, PartialEq, Eq, Structural)]
pub struct Bary {
    pub u: i128,
    pub v: i128,
    pub w: i128,
    pub den: i128,
}

impl Bary {
    /// All three weights are non-negative: the point lies in the triangle.
    pub open spec fn inside(&self) -> bool {
        self.u >= 0 && self.v >= 0 && self.w >= 0
    }

    /// The denominator is positive and the weights sum to it; the
    /// denominator is at most 2^65, as it is for points with 32-bit
    /// coordinates.
    pub open spec fn wf(&self) -> bool {
        &&& 0 < self.den <= 0x2_0000_0000_0000_0000
        &&& self.u + self.v + self.w == self.den
    }

    /// Returns whether all three weights are non-negative.
    pub fn is_inside(&self) -> (r: bool)
        ensures
            r == self.inside(),
    {
        self.u >= 0 && self.v >= 0 && self.w >= 0
    }
}

/// Twice the signed area of the triangle `a b c`; zero when the three points
/// are collinear.
pub open spec fn area2(a: Vec3i, b: Vec3i, c: Vec3i) -> int {
    (b.x - a.x) * (c.y - a.y) - (c.x - a.x) * (b.y - a.y)
}

/// Twice the signed area of the triangle `a p c`: the numerator of the weight
/// of `b`.
pub open spec fn cross_b(a: Vec3i, c: Vec3i, px: i32, py: i32) -> int {
    (c.x - a.x) * (a.y - py) - (a.x - px) * (c.y - a.y)
}

/// Twice the signed area of the triangle `a b p`: the numerator of the weight
/// of `c`.
pub open spec fn cross_c(a: Vec3i, b: Vec3i, px: i32, py: i32) -> int {
    (a.x - px) * (b.y - a.y) - (b.x - a.x) * (a.y - py)
}

/// A triangle whose three vertices are collinear.
pub open spec fn degenerate(a: Vec3i, b: Vec3i, c: Vec3i) -> bool {
    area2(a, b, c) == 0
}

/// The weights that `barycentric` returns for the point `(px, py)`: for a
/// proper triangle the three signed sub-areas over the whole area, signs made
/// so that the denominator is positive; for a degenerate one the sentinel
/// `(-1, 1, 1) / 1`.
pub open spec fn bary_of(a: Vec3i, b: Vec3i, c: Vec3i, px: i32, py: i32) -> Bary {
    let d = area2(a, b, c);
    let v = cross_b(a, c, px, py);
    let w = cross_c(a, b, px, py);
    if d == 0 {
        Bary { u: -1i128, v: 1i128, w: 1i128, den: 1i128 }
    } else if d > 0 {
        Bary { u: (d - v - w) as i128, v: v as i128, w: w as i128, den: d as i128 }
    } else {
        Bary { u: (v + w - d) as i128, v: (-v) as i128, w: (-w) as i128, den: (-d) as i128 }
    }
}

/// The pixel `(px, py)` lies in the closed triangle `a b c`.
pub open spec fn covers(a: Vec3i, b: Vec3i, c: Vec3i, px: i32, py: i32) -> bool {
    bary_of(a, b, c, px, py).inside()
}

/// Computes the barycentric weights of `p` against the triangle `a b c`,
/// using only the `x` and `y` components. A degenerate triangle gives a weight
/// vector with a negative component, so that no point is inside it.
pub fn barycentric(a: Vec3i, b: Vec3i, c: Vec3i, p: Vec3i) -> (r: Bary)
    ensures
        r == bary_of(a, b, c, p.x, p.y),
        r.wf(),
{
    let abx = b.x as i128 - a.x as i128;
    let aby = b.y as i128 - a.y as i128;
    let acx = c.x as i128 - a.x as i128;
    let acy = c.y as i128 - a.y as i128;
    let pax = a.x as i128 - p.x as i128;
    let pay = a.y as i128 - p.y as i128;
    proof {
        lemma_product_bound(abx as int, acy as int);
        lemma_product_bound(acx as int, aby as int);
        lemma_product_bound(acx as int, pay as int);
        lemma_product_bound(pax as int, acy as int);
        lemma_product_bound(pax as int, aby as int);
        lemma_product_bound(abx as int, pay as int);
    }
    proof {
        lemma_area_bounds(a, b, c, p.x, p.y);
    }
    let d = abx * acy - acx * aby;
    let v = acx * pay - pax * acy;
    let w = pax * aby - abx * pay;
    if d == 0 {
        Bary { u: -1, v: 1, w: 1, den: 1 }
    } else if d > 0 {
        Bary { u: d - v - w, v, w, den: d }
    } else {
        Bary { u: v + w - d, v: -v, w: -w, den: -d }
    }
}

/// Differences of two `i32` values multiply without leaving 2^66.
pub proof fn lemma_product_bound(x: int, y: int)
    requires
        -0x1_0000_0000 <= x <= 0x1_0000_0000,
        -0x1_0000_0000 <= y <= 0x1_0000_0000,
    ensures
        -0x1_0000_0000_0000_0000 <= x * y <= 0x1_0000_0000_0000_0000,
{
    assert(-0x1_0000_0000_0000_0000 <= x * y <= 0x1_0000_0000_0000_0000) by (nonlinear_arith)
        requires
            -0x1_0000_0000 <= x <= 0x1_0000_0000,
            -0x1_0000_0000 <= y <= 0x1_0000_0000,
    ;
}

/// The weights of any point against any triangle sum to one: the three
/// numerators add up to the common denominator, which is positive.
pub proof fn lemma_weights_sum_to_one(a: Vec3i, b: Vec3i, c: Vec3i, px: i32, py: i32)
    ensures
        bary_of(a, b, c, px, py).wf(),
{
    lemma_area_bounds(a, b, c, px, py);
}

/// The three signed areas stay within 2^66 in magnitude.
proof fn lemma_area_bounds(a: Vec3i, b: Vec3i, c: Vec3i, px: i32, py: i32)
    ensures
        -0x2_0000_0000_0000_0000 <= area2(a, b, c) <= 0x2_0000_0000_0000_0000,
        -0x2_0000_0000_0000_0000 <= cross_b(a, c, px, py) <= 0x2_0000_0000_0000_0000,
        -0x2_0000_0000_0000_0000 <= cross_c(a, b, px, py) <= 0x2_0000_0000_0000_0000,
{
    lemma_product_bound(b.x - a.x, c.y - a.y);
    lemma_product_bound(c.x - a.x, b.y - a.y);
    lemma_product_bound(c.x - a.x, a.y - py);
    lemma_product_bound(a.x - px, c.y - a.y);
    lemma_product_bound(a.x - px, b.y - a.y);
    lemma_product_bound(b.x - a.x, a.y - py);
}

/// For a proper triangle the weights reproduce the point: the vertices mixed
/// by the three numerators give the point times the denominator.
pub proof fn lemma_weights_reproduce_point(a: Vec3i, b: Vec3i, c: Vec3i, px: i32, py: i32)
    requires
        !degenerate(a, b, c),
    ensures
        bary_of(a, b, c, px, py).u * a.x + bary_of(a, b, c, px, py).v * b.x + bary_of(a, b, c, px, py).w * c.x
            == bary_of(a, b, c, px, py).den * px,
        bary_of(a, b, c, px, py).u * a.y + bary_of(a, b, c, px, py).v * b.y + bary_of(a, b, c, px, py).w * c.y
            == bary_of(a, b, c, px, py).den * py,
{
    lemma_area_bounds(a, b, c, px, py);
    let d = area2(a, b, c);
    let v = cross_b(a, c, px, py);
    let w = cross_c(a, b, px, py);
    let (x1, y1, x2, y2, qx, qy) = (b.x - a.x, b.y - a.y, c.x - a.x, c.y - a.y, px - a.x, py - a.y);
    assert(v * x1 + w * x2 == d * qx) by (nonlinear_arith)
        requires
            d == x1 * y2 - x2 * y1,
            v == x2 * (-qy) - (-qx) * y2,
            w == (-qx) * y1 - x1 * (-qy),
    ;
    assert(v == qx * y2 - x2 * qy && w == x1 * qy - qx * y1) by (nonlinear_arith)
        requires
            v == x2 * (-qy) - (-qx) * y2,
            w == (-qx) * y1 - x1 * (-qy),
    ;
    assert(v * y1 + w * y2 == d * qy) by (nonlinear_arith)
        requires
            d == x1 * y2 - x2 * y1,
            v == qx * y2 - x2 * qy,
            w == x1 * qy - qx * y1,
    ;
    assert((d - v - w) * a.x + v * b.x + w * c.x == d * px) by (nonlinear_arith)
        requires
            v * x1 + w * x2 == d * qx,
            x1 == b.x - a.x,
            x2 == c.x - a.x,
            qx == px - a.x,
    ;
    assert((d - v - w) * a.y + v * b.y + w * c.y == d * py) by (nonlinear_arith)
        requires
            v * y1 + w * y2 == d * qy,
            y1 == b.y - a.y,
            y2 == c.y - a.y,
            qy == py - a.y,
    ;
    assert((v + w - d) * a.x + (-v) * b.x + (-w) * c.x == (-d) * px) by (nonlinear_arith)
        requires
            (d - v - w) * a.x + v * b.x + w * c.x == d * px,
    ;
    assert((v + w - d) * a.y + (-v) * b.y + (-w) * c.y == (-d) * py) by (nonlinear_arith)
        requires
            (d - v - w) * a.y + v * b.y + w * c.y == d * py,
    ;
}

/// A degenerate triangle, in particular one with a repeated vertex, gives
/// every point a negative weight, so no pixel is inside it.
pub proof fn lemma_degenerate_is_empty(a: Vec3i, b: Vec3i, c: Vec3i, px: i32, py: i32)
    requires
        degenerate(a, b, c) || a == b || b == c || a == c,
    ensures
        bary_of(a, b, c, px, py).u < 0,
        !covers(a, b, c, px, py),
{
    assert(area2(a, b, c) == 0) by (nonlinear_arith)
        requires
            degenerate(a, b, c) || a == b || b == c || a == c,
    ;
}

} // verus!
