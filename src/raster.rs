//! Triangle fill: a bounding-box scan with barycentric coverage, a depth test
//! in which the greater depth wins, and a color taken from a pixel source.
use vstd::prelude::*;

use crate::canvas::{Canvas, Color, DepthBuffer};
use crate::geometry::{
    Bary, Vec3i, barycentric, bary_of, covers, degenerate, lemma_degenerate_is_empty, lemma_weights_reproduce_point,
    lemma_weights_sum_to_one,
};

verus! {

/// What a scan asks of each pixel that a triangle covers: the depth to test
/// and store, and the color to write together with a discard flag.
pub trait PixelSource {
    /// The source can answer for every covered pixel.
    spec fn ready(&self) -> bool;

    /// The source can answer for the weights `bc` of a covered pixel.
    spec fn serves(&self, bc: Bary) -> bool;

    spec fn depth_at(&self, bc: Bary) -> i64;

    /// The color for the weights `bc`, and whether the write is discarded.
    spec fn shade_at(&self, bc: Bary) -> (Color, bool);

    fn depth(&self, bc: Bary) -> (z: i64)
        requires
            self.ready(),
            bc.wf(),
            bc.inside(),
        ensures
            z == self.depth_at(bc),
    ;

    fn shade(&self, bc: Bary) -> (r: (Color, bool))
        requires
            self.ready(),
            self.serves(bc),
            bc.wf(),
            bc.inside(),
        ensures
            r == self.shade_at(bc),
    ;
}

pub open spec fn min3(a: int, b: int, c: int) -> int {
    if a <= b && a <= c {
        a
    } else if b <= c {
        b
    } else {
        c
    }
}

pub open spec fn max3(a: int, b: int, c: int) -> int {
    if a >= b && a >= c {
        a
    } else if b >= c {
        b
    } else {
        c
    }
}

/// The pixel `(x, y)` lies in the bounding box of the triangle, clamped to a
/// `width` by `height` grid.
pub open spec fn in_box(a: Vec3i, b: Vec3i, c: Vec3i, width: int, height: int, x: int, y: int) -> bool {
    &&& 0 <= x < width
    &&& 0 <= y < height
    &&& min3(a.x as int, b.x as int, c.x as int) <= x <= max3(a.x as int, b.x as int, c.x as int)
    &&& min3(a.y as int, b.y as int, c.y as int) <= y <= max3(a.y as int, b.y as int, c.y as int)
}

/// The source serves every pixel of the `width` by `height` grid that the
/// scan of the triangle reaches and that the triangle covers.
pub open spec fn serves_covered<S: PixelSource>(a: Vec3i, b: Vec3i, c: Vec3i, src: &S, width: int, height: int) -> bool {
    forall|x: int, y: int|
        in_box(a, b, c, width, height, x, y) && covers(a, b, c, x as i32, y as i32) ==> #[trigger] src.serves(
            pixel_bary(a, b, c, x, y),
        )
}

/// The weights of the pixel `(x, y)` against the triangle.
pub open spec fn pixel_bary(a: Vec3i, b: Vec3i, c: Vec3i, x: int, y: int) -> Bary {
    bary_of(a, b, c, x as i32, y as i32)
}

/// The pixel `(x, y)`, whose stored depth is `z`, passes the scan: it is in
/// the clamped box, inside the triangle, and its new depth is at least `z`.
pub open spec fn wins<S: PixelSource>(
    a: Vec3i,
    b: Vec3i,
    c: Vec3i,
    src: &S,
    width: int,
    height: int,
    z: i64,
    x: int,
    y: int,
) -> bool {
    &&& in_box(a, b, c, width, height, x, y)
    &&& covers(a, b, c, x as i32, y as i32)
    &&& z <= src.depth_at(pixel_bary(a, b, c, x, y))
}

/// The depth of the pixel `(x, y)` after the scan.
pub open spec fn depth_after<S: PixelSource>(
    a: Vec3i,
    b: Vec3i,
    c: Vec3i,
    src: &S,
    width: int,
    height: int,
    z: i64,
    x: int,
    y: int,
) -> i64 {
    if wins(a, b, c, src, width, height, z, x, y) {
        src.depth_at(pixel_bary(a, b, c, x, y))
    } else {
        z
    }
}

/// The color of the pixel `(x, y)`, which was `old` with stored depth `z`,
/// after the scan.
pub open spec fn color_after<S: PixelSource>(
    a: Vec3i,
    b: Vec3i,
    c: Vec3i,
    src: &S,
    width: int,
    height: int,
    z: i64,
    old: Color,
    x: int,
    y: int,
) -> Color {
    let (col, discard) = src.shade_at(pixel_bary(a, b, c, x, y));
    if wins(a, b, c, src, width, height, z, x, y) && !discard {
        col
    } else {
        old
    }
}

/// The canvas and depth buffer hold the result of one scan of the triangle
/// over the state `image0`, `zbuf0`.
pub open spec fn scanned<S: PixelSource>(
    a: Vec3i,
    b: Vec3i,
    c: Vec3i,
    src: &S,
    image0: Canvas,
    zbuf0: DepthBuffer,
    image: Canvas,
    zbuf: DepthBuffer,
) -> bool {
    &&& image.wf()
    &&& zbuf.wf()
    &&& image.width == image0.width
    &&& image.height == image0.height
    &&& zbuf.width == zbuf0.width
    &&& zbuf.height == zbuf0.height
    &&& forall|x: int, y: int|
        0 <= x < image0.width && 0 <= y < image0.height ==> {
            &&& #[trigger] zbuf.at(x, y) == depth_after(
                a,
                b,
                c,
                src,
                image0.width as int,
                image0.height as int,
                zbuf0.at(x, y),
                x,
                y,
            )
            &&& image.at(x, y) == color_after(
                a,
                b,
                c,
                src,
                image0.width as int,
                image0.height as int,
                zbuf0.at(x, y),
                image0.at(x, y),
                x,
                y,
            )
        }
}

/// The pixels of the box already scanned when the scan stands at `(px, py)`,
/// going column by column.
spec fn visited(
    a: Vec3i,
    b: Vec3i,
    c: Vec3i,
    width: int,
    height: int,
    px: int,
    py: int,
    x: int,
    y: int,
) -> bool {
    in_box(a, b, c, width, height, x, y) && (x < px || (x == px && y < py))
}

fn min3_i64(a: i32, b: i32, c: i32) -> (r: i64)
    ensures
        r == min3(a as int, b as int, c as int),
{
    if a <= b && a <= c {
        a as i64
    } else if b <= c {
        b as i64
    } else {
        c as i64
    }
}

fn max3_i64(a: i32, b: i32, c: i32) -> (r: i64)
    ensures
        r == max3(a as int, b as int, c as int),
{
    if a >= b && a >= c {
        a as i64
    } else if b >= c {
        b as i64
    } else {
        c as i64
    }
}

/// Fills the triangle `a b c`: every pixel of its bounding box, clamped to the
/// canvas, that lies in the triangle and whose new depth is at least the
/// stored one gets the new depth, and the source's color unless discarded.
pub fn scan<S: PixelSource>(a: Vec3i, b: Vec3i, c: Vec3i, src: &S, image: &mut Canvas, zbuf: &mut DepthBuffer)
    requires
        src.ready(),
        serves_covered(a, b, c, src, old(image).width as int, old(image).height as int),
        old(image).wf(),
        old(zbuf).wf(),
        old(zbuf).width == old(image).width,
        old(zbuf).height == old(image).height,
    ensures
        scanned(a, b, c, src, *old(image), *old(zbuf), *final(image), *final(zbuf)),
{
    let ghost image0 = *image;
    let ghost zbuf0 = *zbuf;
    let ghost w = image.width as int;
    let ghost h = image.height as int;
    let mut xlo = min3_i64(a.x, b.x, c.x);
    if xlo < 0 {
        xlo = 0;
    }
    let mut xhi = max3_i64(a.x, b.x, c.x);
    if xhi > image.width as i64 - 1 {
        xhi = image.width as i64 - 1;
    }
    let mut ylo = min3_i64(a.y, b.y, c.y);
    if ylo < 0 {
        ylo = 0;
    }
    let mut yhi = max3_i64(a.y, b.y, c.y);
    if yhi > image.height as i64 - 1 {
        yhi = image.height as i64 - 1;
    }
    let mut px: i64 = xlo;
    while px <= xhi
        invariant
            image.wf(),
            zbuf.wf(),
            image.width == image0.width,
            image.height == image0.height,
            zbuf.width == zbuf0.width,
            zbuf.height == zbuf0.height,
            zbuf0.width == image0.width,
            zbuf0.height == image0.height,
            w == image0.width,
            h == image0.height,
            src.ready(),
            serves_covered(a, b, c, src, w, h),
            0 <= xlo <= px,
            px <= xhi + 1 || px == xlo,
            xhi <= max3(a.x as int, b.x as int, c.x as int),
            xhi <= w - 1,
            xlo == if min3(a.x as int, b.x as int, c.x as int) < 0 { 0 } else { min3(a.x as int, b.x as int, c.x as int) },
            ylo == if min3(a.y as int, b.y as int, c.y as int) < 0 { 0 } else { min3(a.y as int, b.y as int, c.y as int) },
            yhi == if max3(a.y as int, b.y as int, c.y as int) > h - 1 { h - 1 } else { max3(a.y as int, b.y as int, c.y as int) },
            xhi == if max3(a.x as int, b.x as int, c.x as int) > w - 1 { w - 1 } else { max3(a.x as int, b.x as int, c.x as int) },
            forall|x: int, y: int|
                0 <= x < w && 0 <= y < h ==> {
                    &&& #[trigger] zbuf.at(x, y) == if visited(a, b, c, w, h, px as int, 0, x, y) {
                        depth_after(a, b, c, src, w, h, zbuf0.at(x, y), x, y)
                    } else {
                        zbuf0.at(x, y)
                    }
                    &&& image.at(x, y) == if visited(a, b, c, w, h, px as int, 0, x, y) {
                        color_after(a, b, c, src, w, h, zbuf0.at(x, y), image0.at(x, y), x, y)
                    } else {
                        image0.at(x, y)
                    }
                },
        decreases xhi + 1 - px,
    {
        let mut py: i64 = ylo;
        while py <= yhi
            invariant
                image.wf(),
                zbuf.wf(),
                image.width == image0.width,
                image.height == image0.height,
                zbuf.width == zbuf0.width,
                zbuf.height == zbuf0.height,
                zbuf0.width == image0.width,
                zbuf0.height == image0.height,
                w == image0.width,
                h == image0.height,
                src.ready(),
                serves_covered(a, b, c, src, w, h),
                0 <= xlo <= px <= xhi,
                0 <= ylo <= py,
                py <= yhi + 1 || py == ylo,
                xhi <= max3(a.x as int, b.x as int, c.x as int),
                xhi <= w - 1,
                xlo == if min3(a.x as int, b.x as int, c.x as int) < 0 { 0 } else { min3(a.x as int, b.x as int, c.x as int) },
                ylo == if min3(a.y as int, b.y as int, c.y as int) < 0 { 0 } else { min3(a.y as int, b.y as int, c.y as int) },
                yhi == if max3(a.y as int, b.y as int, c.y as int) > h - 1 { h - 1 } else { max3(a.y as int, b.y as int, c.y as int) },
                xhi == if max3(a.x as int, b.x as int, c.x as int) > w - 1 { w - 1 } else { max3(a.x as int, b.x as int, c.x as int) },
                forall|x: int, y: int|
                    0 <= x < w && 0 <= y < h ==> {
                        &&& #[trigger] zbuf.at(x, y) == if visited(a, b, c, w, h, px as int, py as int, x, y) {
                            depth_after(a, b, c, src, w, h, zbuf0.at(x, y), x, y)
                        } else {
                            zbuf0.at(x, y)
                        }
                        &&& image.at(x, y) == if visited(a, b, c, w, h, px as int, py as int, x, y) {
                            color_after(a, b, c, src, w, h, zbuf0.at(x, y), image0.at(x, y), x, y)
                        } else {
                            image0.at(x, y)
                        }
                    },
            decreases yhi + 1 - py,
        {
            scan_pixel(a, b, c, src, image, zbuf, px, py);
            py = py + 1;
        }
        px = px + 1;
    }
    proof {
        assert forall|x: int, y: int| 0 <= x < w && 0 <= y < h && !in_box(a, b, c, w, h, x, y) implies
            depth_after(a, b, c, src, w, h, zbuf0.at(x, y), x, y) == zbuf0.at(x, y)
            && color_after(a, b, c, src, w, h, zbuf0.at(x, y), image0.at(x, y), x, y) == image0.at(x, y) by {}
        assert forall|x: int, y: int| 0 <= x < w && 0 <= y < h implies
            zbuf.at(x, y) == depth_after(a, b, c, src, w, h, zbuf0.at(x, y), x, y)
            && image.at(x, y) == color_after(a, b, c, src, w, h, zbuf0.at(x, y), image0.at(x, y), x, y) by {
            assert(zbuf.at(x, y) == if visited(a, b, c, w, h, px as int, 0, x, y) {
                depth_after(a, b, c, src, w, h, zbuf0.at(x, y), x, y)
            } else {
                zbuf0.at(x, y)
            });
            assert(visited(a, b, c, w, h, px as int, 0, x, y) == in_box(a, b, c, w, h, x, y));
        }
    }
}

/// A point inside a triangle lies in the triangle's bounding box, so the
/// scan, which visits the box clamped to the canvas, reaches every pixel of
/// the canvas that the triangle covers.
pub proof fn lemma_covered_in_box(a: Vec3i, b: Vec3i, c: Vec3i, px: i32, py: i32)
    requires
        covers(a, b, c, px, py),
    ensures
        min3(a.x as int, b.x as int, c.x as int) <= px <= max3(a.x as int, b.x as int, c.x as int),
        min3(a.y as int, b.y as int, c.y as int) <= py <= max3(a.y as int, b.y as int, c.y as int),
{
    let bc = bary_of(a, b, c, px, py);
    if degenerate(a, b, c) {
        lemma_degenerate_is_empty(a, b, c, px, py);
    }
    lemma_weights_sum_to_one(a, b, c, px, py);
    lemma_weights_reproduce_point(a, b, c, px, py);
    let (xlo, xhi) = (min3(a.x as int, b.x as int, c.x as int), max3(a.x as int, b.x as int, c.x as int));
    let (ylo, yhi) = (min3(a.y as int, b.y as int, c.y as int), max3(a.y as int, b.y as int, c.y as int));
    crate::fill::lemma_weighted_sum_bounds(a.x as int, b.x as int, c.x as int, bc, xlo, xhi);
    crate::fill::lemma_weighted_sum_bounds(a.y as int, b.y as int, c.y as int, bc, ylo, yhi);
    assert(xlo <= px <= xhi) by (nonlinear_arith)
        requires
            xlo * bc.den <= bc.den * px <= xhi * bc.den,
            bc.den > 0,
    ;
    assert(ylo <= py <= yhi) by (nonlinear_arith)
        requires
            ylo * bc.den <= bc.den * py <= yhi * bc.den,
            bc.den > 0,
    ;
}

/// Scanning the same triangle with the same source a second time leaves the
/// canvas and the depth buffer as the first scan left them: a pixel that won
/// holds the new depth, which wins again with the same color, and a pixel
/// that lost loses again.
pub proof fn lemma_scan_idempotent<S: PixelSource>(
    a: Vec3i,
    b: Vec3i,
    c: Vec3i,
    src: &S,
    image0: Canvas,
    zbuf0: DepthBuffer,
    image1: Canvas,
    zbuf1: DepthBuffer,
    image2: Canvas,
    zbuf2: DepthBuffer,
)
    requires
        image0.wf(),
        zbuf0.wf(),
        zbuf0.width == image0.width,
        zbuf0.height == image0.height,
        scanned(a, b, c, src, image0, zbuf0, image1, zbuf1),
        scanned(a, b, c, src, image1, zbuf1, image2, zbuf2),
    ensures
        image2.pixels@ == image1.pixels@,
        zbuf2.depth@ == zbuf1.depth@,
{
    assert forall|x: int, y: int| 0 <= x < image1.width && 0 <= y < image1.height implies
        #[trigger] image2.at(x, y) == image1.at(x, y) && zbuf2.at(x, y) == zbuf1.at(x, y) by {
        let z0 = zbuf0.at(x, y);
        let z1 = zbuf1.at(x, y);
        let z2 = zbuf2.at(x, y);
        let w = image0.width as int;
        let h = image0.height as int;
        assert(z1 == depth_after(a, b, c, src, w, h, z0, x, y));
        assert(z2 == depth_after(a, b, c, src, w, h, z1, x, y));
        if wins(a, b, c, src, w, h, z0, x, y) {
            assert(wins(a, b, c, src, w, h, z1, x, y));
        } else {
            assert(z1 == z0);
        }
        assert(image2.at(x, y) == image1.at(x, y));
    }
    image2.lemma_same_pixels(&image1);
    zbuf2.lemma_same_depths(&zbuf1);
}

/// Where two triangles overlap at `(x, y)`, the one whose depth there is
/// greater shows its color, whichever of the two is drawn first, provided the
/// stored depth did not already hide it and its write is not discarded.
pub proof fn lemma_nearer_wins<S: PixelSource, T: PixelSource>(
    a1: Vec3i,
    b1: Vec3i,
    c1: Vec3i,
    near: &S,
    a2: Vec3i,
    b2: Vec3i,
    c2: Vec3i,
    far: &T,
    image0: Canvas,
    zbuf0: DepthBuffer,
    near_image: Canvas,
    near_zbuf: DepthBuffer,
    near_far_image: Canvas,
    near_far_zbuf: DepthBuffer,
    far_image: Canvas,
    far_zbuf: DepthBuffer,
    far_near_image: Canvas,
    far_near_zbuf: DepthBuffer,
    x: int,
    y: int,
)
    requires
        image0.wf(),
        zbuf0.wf(),
        zbuf0.width == image0.width,
        zbuf0.height == image0.height,
        scanned(a1, b1, c1, near, image0, zbuf0, near_image, near_zbuf),
        scanned(a2, b2, c2, far, near_image, near_zbuf, near_far_image, near_far_zbuf),
        scanned(a2, b2, c2, far, image0, zbuf0, far_image, far_zbuf),
        scanned(a1, b1, c1, near, far_image, far_zbuf, far_near_image, far_near_zbuf),
        in_box(a1, b1, c1, image0.width as int, image0.height as int, x, y),
        in_box(a2, b2, c2, image0.width as int, image0.height as int, x, y),
        covers(a1, b1, c1, x as i32, y as i32),
        covers(a2, b2, c2, x as i32, y as i32),
        near.depth_at(pixel_bary(a1, b1, c1, x, y)) > far.depth_at(pixel_bary(a2, b2, c2, x, y)),
        zbuf0.at(x, y) <= near.depth_at(pixel_bary(a1, b1, c1, x, y)),
        !near.shade_at(pixel_bary(a1, b1, c1, x, y)).1,
    ensures
        near_far_image.at(x, y) == near.shade_at(pixel_bary(a1, b1, c1, x, y)).0,
        far_near_image.at(x, y) == near.shade_at(pixel_bary(a1, b1, c1, x, y)).0,
{
    let w = image0.width as int;
    let h = image0.height as int;
    let d1 = near.depth_at(pixel_bary(a1, b1, c1, x, y));
    let z0 = zbuf0.at(x, y);
    assert(near_zbuf.at(x, y) == depth_after(a1, b1, c1, near, w, h, z0, x, y));
    assert(wins(a1, b1, c1, near, w, h, z0, x, y));
    assert(near_zbuf.at(x, y) == d1);
    assert(near_far_zbuf.at(x, y) == depth_after(a2, b2, c2, far, w, h, d1, x, y));
    assert(!wins(a2, b2, c2, far, w, h, d1, x, y));
    assert(far_zbuf.at(x, y) == depth_after(a2, b2, c2, far, w, h, z0, x, y));
    assert(far_zbuf.at(x, y) <= d1);
    assert(far_near_zbuf.at(x, y) == depth_after(a1, b1, c1, near, w, h, far_zbuf.at(x, y), x, y));
    assert(wins(a1, b1, c1, near, w, h, far_zbuf.at(x, y), x, y));
}

/// A degenerate triangle, one with a repeated vertex among them, leaves the
/// canvas and the depth buffer unchanged.
pub proof fn lemma_degenerate_draws_nothing<S: PixelSource>(
    a: Vec3i,
    b: Vec3i,
    c: Vec3i,
    src: &S,
    image0: Canvas,
    zbuf0: DepthBuffer,
    image1: Canvas,
    zbuf1: DepthBuffer,
)
    requires
        image0.wf(),
        zbuf0.wf(),
        zbuf0.width == image0.width,
        zbuf0.height == image0.height,
        degenerate(a, b, c) || a == b || b == c || a == c,
        scanned(a, b, c, src, image0, zbuf0, image1, zbuf1),
    ensures
        image1.pixels@ == image0.pixels@,
        zbuf1.depth@ == zbuf0.depth@,
{
    assert forall|x: int, y: int| 0 <= x < image0.width && 0 <= y < image0.height implies
        #[trigger] image1.at(x, y) == image0.at(x, y) && zbuf1.at(x, y) == zbuf0.at(x, y) by {
        lemma_degenerate_is_empty(a, b, c, x as i32, y as i32);
        assert(!covers(a, b, c, x as i32, y as i32));
        assert(!wins(a, b, c, src, image0.width as int, image0.height as int, zbuf0.at(x, y), x, y));
        assert(zbuf1.at(x, y) == zbuf0.at(x, y));
        assert(image1.at(x, y) == image0.at(x, y));
    }
    image1.lemma_same_pixels(&image0);
    zbuf1.lemma_same_depths(&zbuf0);
}

/// Scans one pixel of the clamped box.
fn scan_pixel<S: PixelSource>(
    a: Vec3i,
    b: Vec3i,
    c: Vec3i,
    src: &S,
    image: &mut Canvas,
    zbuf: &mut DepthBuffer,
    px: i64,
    py: i64,
)
    requires
        src.ready(),
        serves_covered(a, b, c, src, old(image).width as int, old(image).height as int),
        old(image).wf(),
        old(zbuf).wf(),
        old(zbuf).width == old(image).width,
        old(zbuf).height == old(image).height,
        in_box(a, b, c, old(image).width as int, old(image).height as int, px as int, py as int),
    ensures
        final(image).wf(),
        final(zbuf).wf(),
        final(image).width == old(image).width,
        final(image).height == old(image).height,
        final(zbuf).width == old(zbuf).width,
        final(zbuf).height == old(zbuf).height,
        forall|x: int, y: int|
            0 <= x < old(image).width && 0 <= y < old(image).height && (x != px || y != py) ==> {
                &&& #[trigger] final(zbuf).at(x, y) == old(zbuf).at(x, y)
                &&& final(image).at(x, y) == old(image).at(x, y)
            },
        final(zbuf).at(px as int, py as int) == depth_after(
            a,
            b,
            c,
            src,
            old(image).width as int,
            old(image).height as int,
            old(zbuf).at(px as int, py as int),
            px as int,
            py as int,
        ),
        final(image).at(px as int, py as int) == color_after(
            a,
            b,
            c,
            src,
            old(image).width as int,
            old(image).height as int,
            old(zbuf).at(px as int, py as int),
            old(image).at(px as int, py as int),
            px as int,
            py as int,
        ),
{
    let ghost w = image.width as int;
    let ghost h = image.height as int;
    proof {
        lemma_cell_bounds(w, h, px as int, py as int);
        assert forall|x: int, y: int| 0 <= x < w && 0 <= y < h && (x != px || y != py) implies
            crate::canvas::cell(w, x, y) != crate::canvas::cell(w, px as int, py as int)
            && 0 <= crate::canvas::cell(w, x, y) < w * h by {
            lemma_other_cell(w, h, x, y, px as int, py as int);
        }
    }
    let bc = barycentric(a, b, c, Vec3i { x: px as i32, y: py as i32, z: 0 });
    if bc.is_inside() {
        let z = src.depth(bc);
        let stored = zbuf.get(px as u32, py as u32);
        if stored <= z {
            zbuf.set(px as u32, py as u32, z);
            assert(src.serves(pixel_bary(a, b, c, px as int, py as int)));
            let (col, discard) = src.shade(bc);
            if !discard {
                image.put_pixel(px as u32, py as u32, col);
            }
        }
    }
}

/// A pixel of the grid other than `(px, py)` has another cell.
proof fn lemma_other_cell(w: int, h: int, x: int, y: int, px: int, py: int)
    requires
        0 <= x < w,
        0 <= y < h,
        0 <= px < w,
        0 <= py < h,
        x != px || y != py,
    ensures
        crate::canvas::cell(w, x, y) != crate::canvas::cell(w, px, py),
        0 <= crate::canvas::cell(w, x, y) < w * h,
{
    crate::canvas::lemma_cell_in_grid(w, h, x, y);
    if crate::canvas::cell(w, x, y) == crate::canvas::cell(w, px, py) {
        crate::canvas::lemma_cell_injective(w, x, y, px, py);
    }
}

proof fn lemma_cell_bounds(w: int, h: int, px: int, py: int)
    requires
        0 <= px < w,
        0 <= py < h,
    ensures
        0 <= crate::canvas::cell(w, px, py) < w * h,
{
    crate::canvas::lemma_cell_in_grid(w, h, px, py);
}

} // verus!
