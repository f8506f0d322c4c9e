//! Line drawing with an integer error term, and a one-dimensional y-buffer
//! fill.
use vstd::prelude::*;

use crate::canvas::{Canvas, Color};
use crate::geometry::Vec2i;

verus! {

pub open spec fn abs(v: int) -> int {
    if v < 0 {
        -v
    } else {
        v
    }
}

/// The line steps along y: it is steeper than 45 degrees.
pub open spec fn is_steep(a: Vec2i, b: Vec2i) -> bool {
    abs(a.x - b.x) < abs(a.y - b.y)
}

/// The endpoint `p` with its axes swapped on a steep line, so that the line
/// runs along the first coordinate.
pub open spec fn along(p: Vec2i, steep: bool) -> (int, int) {
    if steep {
        (p.y as int, p.x as int)
    } else {
        (p.x as int, p.y as int)
    }
}

/// The endpoints in the line's own axes, ordered by the first coordinate.
pub open spec fn ends(a: Vec2i, b: Vec2i) -> ((int, int), (int, int)) {
    let s = is_steep(a, b);
    let (p, q) = (along(a, s), along(b, s));
    if p.0 > q.0 {
        (q, p)
    } else {
        (p, q)
    }
}

/// How far the minor coordinate has moved after `k` steps along a line that
/// rises `rise` over a run of `run`: `rise * k / run` rounded to the nearest
/// integer, halves rounded down.
pub open spec fn rise_after(rise: int, run: int, k: int) -> int {
    if run == 0 {
        0
    } else {
        (2 * rise * k + run - 1) / (2 * run)
    }
}

/// The pixel `(x, y)` is one that `line(a, b, ..)` plots.
pub open spec fn on_line(a: Vec2i, b: Vec2i, x: int, y: int) -> bool {
    let (p, q) = ends(a, b);
    let (u, v) = if is_steep(a, b) { (y, x) } else { (x, y) };
    let step = if q.1 > p.1 { 1int } else { -1int };
    &&& p.0 <= u <= q.0
    &&& v == p.1 + step * rise_after(abs(q.1 - p.1), q.0 - p.0, u - p.0)
}

/// The color of the pixel `(x, y)`, which was `old`, after the line from `a`
/// to `b` is drawn in `color`.
pub open spec fn line_pixel(a: Vec2i, b: Vec2i, color: Color, old: Color, x: int, y: int) -> Color {
    if on_line(a, b, x, y) {
        color
    } else {
        old
    }
}

/// The pixel `(x, y)` is plotted before the scan along the line reaches `u`.
spec fn plotted_before(a: Vec2i, b: Vec2i, u: int, x: int, y: int) -> bool {
    on_line(a, b, x, y) && (if is_steep(a, b) { y } else { x }) < u
}

/// `n / d == m` when `d * m <= n < d * (m + 1)`.
proof fn lemma_div_unique(n: int, d: int, m: int)
    requires
        d > 0,
        d * m <= n < d * (m + 1),
    ensures
        n / d == m,
{
    vstd::arithmetic::div_mod::lemma_fundamental_div_mod(n, d);
    let q = n / d;
    let r = n % d;
    assert(q == m) by (nonlinear_arith)
        requires
            d > 0,
            d * m <= n < d * (m + 1),
            n == d * q + r,
            0 <= r < d,
    ;
}

/// Twice the distance, in units of `1 / run`, from the exact line to the
/// plotted pixel after `k` steps.
pub open spec fn error_after(rise: int, run: int, k: int) -> int {
    2 * rise * k - 2 * run * rise_after(rise, run, k)
}

/// The error term of the scan after `k` steps, and how the next step moves
/// the minor coordinate.
proof fn lemma_rise_step(rise: int, run: int, k: int)
    requires
        0 <= rise <= run,
        run > 0,
        k >= 0,
    ensures
        1 - run <= error_after(rise, run, k) <= run,
        error_after(rise, run, k) + 2 * rise > run ==> rise_after(rise, run, k + 1) == rise_after(rise, run, k) + 1,
        error_after(rise, run, k) + 2 * rise <= run ==> rise_after(rise, run, k + 1) == rise_after(rise, run, k),
        error_after(rise, run, k) + 2 * rise > run ==> error_after(rise, run, k + 1) == error_after(rise, run, k)
            + 2 * rise - 2 * run,
        error_after(rise, run, k) + 2 * rise <= run ==> error_after(rise, run, k + 1) == error_after(rise, run, k)
            + 2 * rise,
        0 <= rise_after(rise, run, k),
{
    let n = rise_after(rise, run, k);
    let big = 2 * rise * k + run - 1;
    vstd::arithmetic::div_mod::lemma_fundamental_div_mod(big, 2 * run);
    let r = big % (2 * run);
    assert(big == 2 * run * n + r && 0 <= r < 2 * run);
    let e = 2 * rise * k - 2 * run * n;
    assert(1 - run <= e <= run);
    assert(0 <= n) by (nonlinear_arith)
        requires
            big == 2 * run * n + r,
            0 <= r < 2 * run,
            big >= 0,
            run > 0,
    ;
    let big1 = 2 * rise * (k + 1) + run - 1;
    assert(big1 == big + 2 * rise) by (nonlinear_arith)
        requires
            big1 == 2 * rise * (k + 1) + run - 1,
            big == 2 * rise * k + run - 1,
    ;
    assert(2 * run * (n + 1) == 2 * run * n + 2 * run) by (nonlinear_arith);
    if e + 2 * rise > run {
        assert(2 * run * (n + 1) <= big1 < 2 * run * (n + 2)) by (nonlinear_arith)
            requires
                big1 == big + 2 * rise,
                big == 2 * run * n + r,
                e == 2 * rise * k - 2 * run * n,
                big == 2 * rise * k + run - 1,
                e + 2 * rise > run,
                0 <= rise <= run,
                0 <= r < 2 * run,
        ;
        lemma_div_unique(big1, 2 * run, n + 1);
    } else {
        assert(2 * run * n <= big1 < 2 * run * (n + 1)) by (nonlinear_arith)
            requires
                big1 == big + 2 * rise,
                big == 2 * run * n + r,
                e == 2 * rise * k - 2 * run * n,
                big == 2 * rise * k + run - 1,
                e + 2 * rise <= run,
                0 <= rise <= run,
                0 <= r < 2 * run,
        ;
        lemma_div_unique(big1, 2 * run, n);
    }
}

/// The minor coordinate never moves past the far endpoint.
proof fn lemma_rise_bound(rise: int, run: int, k: int)
    requires
        0 <= rise <= run,
        run > 0,
        0 <= k <= run,
    ensures
        0 <= rise_after(rise, run, k) <= rise,
{
    let big = 2 * rise * k + run - 1;
    assert(0 <= big < 2 * run * (rise + 1)) by (nonlinear_arith)
        requires
            0 <= rise <= run,
            run > 0,
            0 <= k <= run,
            big == 2 * rise * k + run - 1,
    ;
    vstd::arithmetic::div_mod::lemma_fundamental_div_mod(big, 2 * run);
    let n = big / (2 * run);
    let r = big % (2 * run);
    assert(0 <= n <= rise) by (nonlinear_arith)
        requires
            big == 2 * run * n + r,
            0 <= r < 2 * run,
            0 <= big < 2 * run * (rise + 1),
            run > 0,
    ;
}

/// Draws the line from `a` to `b`: one pixel for each coordinate along the
/// line's longer axis, the other coordinate following the exact line rounded
/// to the nearest integer. Both endpoints must lie on the canvas.
pub fn line(a: Vec2i, b: Vec2i, image: &mut Canvas, color: Color)
    requires
        old(image).wf(),
        0 <= a.x < old(image).width,
        0 <= b.x < old(image).width,
        0 <= a.y < old(image).height,
        0 <= b.y < old(image).height,
    ensures
        final(image).wf(),
        final(image).width == old(image).width,
        final(image).height == old(image).height,
        forall|x: int, y: int|
            0 <= x < old(image).width && 0 <= y < old(image).height ==> #[trigger] final(image).at(x, y)
                == line_pixel(a, b, color, old(image).at(x, y), x, y),
{
    let ghost image0 = *image;
    let ghost w = image.width as int;
    let ghost h = image.height as int;
    let mut x0 = a.x as i64;
    let mut y0 = a.y as i64;
    let mut x1 = b.x as i64;
    let mut y1 = b.y as i64;
    let adx = if x0 > x1 { x0 - x1 } else { x1 - x0 };
    let ady = if y0 > y1 { y0 - y1 } else { y1 - y0 };
    let steep = adx < ady;
    if steep {
        let t = x0;
        x0 = y0;
        y0 = t;
        let t = x1;
        x1 = y1;
        y1 = t;
    }
    if x0 > x1 {
        let t = x0;
        x0 = x1;
        x1 = t;
        let t = y0;
        y0 = y1;
        y1 = t;
    }
    let ghost p = (x0 as int, y0 as int);
    let ghost q = (x1 as int, y1 as int);
    assert(ends(a, b) == (p, q));
    assert(steep == is_steep(a, b));
    let dx = x1 - x0;
    let dy = y1 - y0;
    let rise = if dy < 0 { -dy } else { dy };
    let derror = rise * 2;
    let step: i64 = if y1 > y0 { 1 } else { -1 };
    let mut error: i64 = 0;
    let mut y = y0;
    let mut x = x0;
    proof {
        assert(rise_after(rise as int, dx as int, 0) == 0) by {
            if dx > 0 {
                lemma_div_unique(dx - 1, 2 * dx, 0);
            }
        }
    }
    while x <= x1
        invariant
            image.wf(),
            image.width == image0.width,
            image.height == image0.height,
            w == image0.width,
            h == image0.height,
            ends(a, b) == (p, q),
            steep == is_steep(a, b),
            p == (x0 as int, y0 as int),
            q == (x1 as int, y1 as int),
            dx == x1 - x0,
            0 <= dx,
            rise == abs(y1 - y0),
            rise <= dx,
            derror == 2 * rise,
            step == if y1 > y0 { 1int } else { -1int },
            steep ==> 0 <= x0 && x1 < h && 0 <= y0 < w && 0 <= y1 < w,
            !steep ==> 0 <= x0 && x1 < w && 0 <= y0 < h && 0 <= y1 < h,
            x0 <= x <= x1 + 1,
            x <= x1 ==> y == y0 + step * rise_after(rise as int, dx as int, x - x0),
            x <= x1 ==> error == error_after(rise as int, dx as int, x - x0),
            forall|i: int, j: int|
                0 <= i < w && 0 <= j < h ==> #[trigger] image.at(i, j) == if plotted_before(a, b, x as int, i, j) {
                    color
                } else {
                    image0.at(i, j)
                },
        decreases x1 + 1 - x,
    {
        let ghost k = x - x0;
        let ghost image1 = *image;
        proof {
            if dx > 0 {
                lemma_rise_step(rise as int, dx as int, k);
                lemma_rise_bound(rise as int, dx as int, k);
            }
            assert(step * rise_after(rise as int, dx as int, k) == if y1 > y0 {
                rise_after(rise as int, dx as int, k)
            } else {
                -rise_after(rise as int, dx as int, k)
            }) by (nonlinear_arith)
                requires
                    step == if y1 > y0 { 1int } else { -1int },
            ;
        }
        let (px, py) = if steep {
            (y, x)
        } else {
            (x, y)
        };
        image.put_pixel(px as u32, py as u32, color);
        proof {
            assert forall|i: int, j: int| 0 <= i < w && 0 <= j < h implies #[trigger] image.at(i, j) == if plotted_before(
                a,
                b,
                x + 1,
                i,
                j,
            ) {
                color
            } else {
                image0.at(i, j)
            } by {
                if i != px || j != py {
                    crate::canvas::lemma_cell_in_grid(w, h, i, j);
                    crate::canvas::lemma_cell_in_grid(w, h, px as int, py as int);
                    if crate::canvas::cell(w, i, j) == crate::canvas::cell(w, px as int, py as int) {
                        crate::canvas::lemma_cell_injective(w, i, j, px as int, py as int);
                    }
                    assert(image.at(i, j) == image1.at(i, j));
                    assert(plotted_before(a, b, x + 1, i, j) == plotted_before(a, b, x as int, i, j));
                } else {
                    crate::canvas::lemma_cell_in_grid(w, h, i, j);
                    assert(image.at(i, j) == color);
                    let (u, v) = if steep { (j, i) } else { (i, j) };
                    assert(u == x && v == y);
                    assert(on_line(a, b, i, j));
                    assert(plotted_before(a, b, x + 1, i, j));
                }
            }
        }
        error = error + derror;
        if error > dx {
            y = y + step;
            error = error - dx * 2;
        }
        x = x + 1;
    }
}

/// `n / d` rounded toward zero, for `d > 0`.
pub open spec fn trunc_div(n: int, d: int) -> int {
    if n >= 0 {
        n / d
    } else {
        -((-n) / d)
    }
}

/// The endpoints of a `resterize` run: swapped axes when the segment is
/// steeper than 45 degrees, in the order given.
pub open spec fn run_ends(a: Vec2i, b: Vec2i) -> ((int, int), (int, int)) {
    let s = is_steep(a, b);
    (along(a, s), along(b, s))
}

/// The height of the segment at column `x` of its run: linear between the
/// endpoints and rounded toward zero; a run of zero length has no defined
/// height and counts as 0.
pub open spec fn run_height(a: Vec2i, b: Vec2i, x: int) -> int {
    let (p, q) = run_ends(a, b);
    if q.0 == p.0 {
        0
    } else {
        trunc_div(p.1 * (q.0 - x) + q.1 * (x - p.0), q.0 - p.0)
    }
}

/// Column `x` is in the run and its height beats the stored one.
pub open spec fn raises(a: Vec2i, b: Vec2i, ybuffer: Seq<i32>, x: int) -> bool {
    let (p, q) = run_ends(a, b);
    p.0 <= x <= q.0 && ybuffer[x] < run_height(a, b, x)
}

/// The part of the run that `resterize` reads lies on the canvas and in the
/// y-buffer.
pub open spec fn run_fits(a: Vec2i, b: Vec2i, width: int, len: int) -> bool {
    let (p, q) = run_ends(a, b);
    p.0 <= q.0 ==> 0 <= p.0 && q.0 < width && q.0 < len
}

fn trunc_div_exec(n: i64, d: i64) -> (r: i64)
    requires
        d > 0,
        n > i64::MIN,
    ensures
        r == trunc_div(n as int, d as int),
{
    if n >= 0 {
        n / d
    } else {
        -((-n) / d)
    }
}

/// Draws a segment into a one-dimensional y-buffer: for each column of the
/// segment's run whose height beats the stored height, the height is stored
/// and the whole column of the canvas is painted `color`.
pub fn resterize(a: Vec2i, b: Vec2i, image: &mut Canvas, ybuffer: &mut Vec<i32>, color: Color)
    requires
        old(image).wf(),
        run_fits(a, b, old(image).width as int, old(ybuffer)@.len() as int),
    ensures
        final(image).wf(),
        final(image).width == old(image).width,
        final(image).height == old(image).height,
        final(ybuffer)@.len() == old(ybuffer)@.len(),
        forall|x: int|
            0 <= x < old(ybuffer)@.len() ==> #[trigger] final(ybuffer)@[x] == if raises(a, b, old(ybuffer)@, x) {
                run_height(a, b, x) as i32
            } else {
                old(ybuffer)@[x]
            },
        forall|x: int, y: int|
            0 <= x < old(image).width && 0 <= y < old(image).height ==> #[trigger] final(image).at(x, y)
                == column_pixel(a, b, old(ybuffer)@, color, old(image).at(x, y), x),
{
    let ghost image0 = *image;
    let ghost ybuf0 = ybuffer@;
    let ghost w = image.width as int;
    let ghost h = image.height as int;
    let mut x0 = a.x as i64;
    let mut y0 = a.y as i64;
    let mut x1 = b.x as i64;
    let mut y1 = b.y as i64;
    let adx = if x0 > x1 { x0 - x1 } else { x1 - x0 };
    let ady = if y0 > y1 { y0 - y1 } else { y1 - y0 };
    if adx < ady {
        let t = x0;
        x0 = y0;
        y0 = t;
        let t = x1;
        x1 = y1;
        y1 = t;
    }
    assert(run_ends(a, b) == ((x0 as int, y0 as int), (x1 as int, y1 as int)));
    let mut x = x0;
    while x <= x1
        invariant
            image.wf(),
            image.width == image0.width,
            image.height == image0.height,
            w == image0.width,
            h == image0.height,
            ybuffer@.len() == ybuf0.len(),
            run_ends(a, b) == ((x0 as int, y0 as int), (x1 as int, y1 as int)),
            run_fits(a, b, w, ybuf0.len() as int),
            -0x8000_0000 <= x0 <= 0x7fff_ffff,
            -0x8000_0000 <= x1 <= 0x7fff_ffff,
            -0x8000_0000 <= y0 <= 0x7fff_ffff,
            -0x8000_0000 <= y1 <= 0x7fff_ffff,
            x0 <= x,
            x <= x1 + 1 || x == x0,
            forall|i: int|
                0 <= i < ybuf0.len() ==> #[trigger] ybuffer@[i] == if raises(a, b, ybuf0, i) && i < x {
                    run_height(a, b, i) as i32
                } else {
                    ybuf0[i]
                },
            forall|i: int, j: int|
                0 <= i < w && 0 <= j < h ==> #[trigger] image.at(i, j) == if raises(a, b, ybuf0, i) && i < x {
                    color
                } else {
                    image0.at(i, j)
                },
        decreases x1 + 1 - x,
    {
        let ghost ybuf1 = ybuffer@;
        let ghost image1 = *image;
        let y: i64 = if x1 == x0 {
            0
        } else {
            proof {
                lemma_run_height_bounds(x0 as int, y0 as int, x1 as int, y1 as int, x as int);
            }
            trunc_div_exec(y0 * (x1 - x) + y1 * (x - x0), x1 - x0)
        };
        assert(y == run_height(a, b, x as int));
        let xi = x as usize;
        if (ybuffer[xi] as i64) < y {
            ybuffer.set(xi, y as i32);
            let mut row: u32 = 0;
            while row < image.height
                invariant
                    image.wf(),
                    image.width == image0.width,
                    image.height == image0.height,
                    w == image0.width,
                    h == image0.height,
                    0 <= x < w,
                    row <= h,
                    forall|i: int, j: int|
                        0 <= i < w && 0 <= j < h ==> #[trigger] image.at(i, j) == if i == x && j < row {
                            color
                        } else {
                            image1.at(i, j)
                        },
                decreases h - row,
            {
                let ghost image2 = *image;
                image.put_pixel(x as u32, row, color);
                proof {
                    assert forall|i: int, j: int| 0 <= i < w && 0 <= j < h implies #[trigger] image.at(i, j)
                        == if i == x && j < row + 1 {
                        color
                    } else {
                        image1.at(i, j)
                    } by {
                        crate::canvas::lemma_cell_in_grid(w, h, i, j);
                        crate::canvas::lemma_cell_in_grid(w, h, x as int, row as int);
                        if i != x || j != row {
                            if crate::canvas::cell(w, i, j) == crate::canvas::cell(w, x as int, row as int) {
                                crate::canvas::lemma_cell_injective(w, i, j, x as int, row as int);
                            }
                            assert(image.at(i, j) == image2.at(i, j));
                        }
                    }
                }
                row = row + 1;
            }
        }
        x = x + 1;
    }
}

/// The color of the pixel in column `x`, which was `old`, after `resterize`.
pub open spec fn column_pixel(a: Vec2i, b: Vec2i, ybuffer: Seq<i32>, color: Color, old: Color, x: int) -> Color {
    if raises(a, b, ybuffer, x) {
        color
    } else {
        old
    }
}

pub open spec fn min2(a: int, b: int) -> int {
    if a <= b {
        a
    } else {
        b
    }
}

pub open spec fn max2(a: int, b: int) -> int {
    if a >= b {
        a
    } else {
        b
    }
}

/// The interpolated height stays between the endpoint heights, and every
/// step of its computation fits in 64 bits.
proof fn lemma_run_height_bounds(x0: int, y0: int, x1: int, y1: int, x: int)
    requires
        x0 <= x <= x1,
        x0 < x1,
        -0x8000_0000 <= x0 <= 0x7fff_ffff,
        -0x8000_0000 <= x1 <= 0x7fff_ffff,
        -0x8000_0000 <= y0 <= 0x7fff_ffff,
        -0x8000_0000 <= y1 <= 0x7fff_ffff,
    ensures
        -0x7fff_ffff_ffff_ffff <= y0 * (x1 - x) <= 0x7fff_ffff_ffff_ffff,
        -0x7fff_ffff_ffff_ffff <= y1 * (x - x0) <= 0x7fff_ffff_ffff_ffff,
        -0x7fff_ffff_ffff_ffff <= y0 * (x1 - x) + y1 * (x - x0) <= 0x7fff_ffff_ffff_ffff,
        min2(y0, y1) <= trunc_div(y0 * (x1 - x) + y1 * (x - x0), x1 - x0) <= max2(y0, y1),
{
    let d = x1 - x0;
    let n = y0 * (x1 - x) + y1 * (x - x0);
    let lo = min2(y0, y1);
    let hi = max2(y0, y1);
    assert(lo * d <= n <= hi * d) by (nonlinear_arith)
        requires
            x0 <= x <= x1,
            d == x1 - x0,
            n == y0 * (x1 - x) + y1 * (x - x0),
            lo <= y0 <= hi,
            lo <= y1 <= hi,
    ;
    assert(-0x7fff_ffff_ffff_ffff <= y0 * (x1 - x) <= 0x7fff_ffff_ffff_ffff) by (nonlinear_arith)
        requires
            0 <= x1 - x <= 0xffff_ffff,
            -0x8000_0000 <= y0 <= 0x7fff_ffff,
    ;
    assert(-0x7fff_ffff_ffff_ffff <= y1 * (x - x0) <= 0x7fff_ffff_ffff_ffff) by (nonlinear_arith)
        requires
            0 <= x - x0 <= 0xffff_ffff,
            -0x8000_0000 <= y1 <= 0x7fff_ffff,
    ;
    assert(-0x7fff_ffff_ffff_ffff <= lo * d && hi * d <= 0x7fff_ffff_ffff_ffff) by (nonlinear_arith)
        requires
            0 < d <= 0xffff_ffff,
            -0x8000_0000 <= lo <= 0x7fff_ffff,
            -0x8000_0000 <= hi <= 0x7fff_ffff,
    ;
    if n >= 0 {
        crate::fill::lemma_div_bounds(n, d, lo, hi);
    } else {
        assert(-hi * d <= -n <= -lo * d) by (nonlinear_arith)
            requires
                lo * d <= n <= hi * d,
        ;
        crate::fill::lemma_div_bounds(-n, d, -hi, -lo);
    }
}

} // verus!
