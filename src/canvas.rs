//! The raster target and the depth buffer.
use vstd::prelude::*;

verus! {

/// An 8-bit RGBA color.
#[derive(Clone, Copy, Debug, PartialEq, Eq, Structural)]
pub struct Color {
    pub r: u8,
    pub g: u8,
    pub b: u8,
    pub a: u8,
}

impl Color {
    pub fn new(r: u8, g: u8, b: u8, a: u8) -> (c: Color)
        ensures
            c == (Color { r, g, b, a }),
    {
        Color { r, g, b, a }
    }
}

/// The depth that no surface is behind: every depth buffer starts there.
pub const FAR: i64 = i64::MIN;

/// A grid of `width * height` pixels, stored row by row: the pixel `(x, y)`
/// is at `y * width + x`.
#[derive(Clone, Debug)]
pub struct Canvas {
    pub width: u32,
    pub height: u32,
    pub pixels: Vec<Color>,
}

/// A grid of depths with the layout of a canvas. Greater depths are nearer.
#[derive(Clone, Debug)]
pub struct DepthBuffer {
    pub width: u32,
    pub height: u32,
    pub depth: Vec<i64>,
}

/// The position of the pixel `(x, y)` in a row-by-row grid of the given width.
pub open spec fn cell(width: int, x: int, y: int) -> int {
    y * width + x
}

impl Canvas {
    pub open spec fn wf(&self) -> bool {
        self.pixels@.len() == self.width * self.height
    }

    /// The color of the pixel `(x, y)`.
    pub open spec fn at(&self, x: int, y: int) -> Color {
        self.pixels@[cell(self.width as int, x, y)]
    }

    /// A canvas of the given size with every pixel set to `fill`.
    pub fn new(width: u32, height: u32, fill: Color) -> (c: Canvas)
        requires
            width * height <= usize::MAX,
        ensures
            c.wf(),
            c.width == width,
            c.height == height,
            forall|i: int| 0 <= i < c.pixels@.len() ==> c.pixels@[i] == fill,
    {
        let n = width as usize * height as usize;
        let mut pixels: Vec<Color> = Vec::with_capacity(n);
        let mut i: usize = 0;
        while i < n
            invariant
                i <= n,
                pixels@.len() == i,
                forall|j: int| 0 <= j < i ==> pixels@[j] == fill,
            decreases n - i,
        {
            pixels.push(fill);
            i = i + 1;
        }
        Canvas { width, height, pixels }
    }

    /// Returns whether the canvas holds exactly `width * height` pixels.
    pub fn is_wf(&self) -> (r: bool)
        ensures
            r == self.wf(),
    {
        proof {
            assert(self.width * self.height <= u32::MAX * u32::MAX) by (nonlinear_arith)
                requires
                    self.width <= u32::MAX,
                    self.height <= u32::MAX,
                    self.width >= 0,
                    self.height >= 0,
            ;
        }
        self.pixels.len() as u128 == self.width as u128 * self.height as u128
    }

    pub fn width(&self) -> (r: u32)
        ensures
            r == self.width,
    {
        self.width
    }

    pub fn height(&self) -> (r: u32)
        ensures
            r == self.height,
    {
        self.height
    }

    /// The color of the pixel `(x, y)`.
    pub fn get_pixel(&self, x: u32, y: u32) -> (c: Color)
        requires
            self.wf(),
            x < self.width,
            y < self.height,
        ensures
            c == self.at(x as int, y as int),
    {
        proof {
            lemma_cell_in_grid(self.width as int, self.height as int, x as int, y as int);
        }
        let i = cell_index(self.width, self.height, x, y, self.pixels.len());
        self.pixels[i]
    }

    /// Sets the pixel `(x, y)` to `c` and leaves every other pixel as it was.
    pub fn put_pixel(&mut self, x: u32, y: u32, c: Color)
        requires
            old(self).wf(),
            x < old(self).width,
            y < old(self).height,
        ensures
            final(self).wf(),
            final(self).width == old(self).width,
            final(self).height == old(self).height,
            final(self).pixels@ == old(self).pixels@.update(
                cell(old(self).width as int, x as int, y as int),
                c,
            ),
    {
        proof {
            lemma_cell_in_grid(self.width as int, self.height as int, x as int, y as int);
        }
        let i = cell_index(self.width, self.height, x, y, self.pixels.len());
        self.pixels.set(i, c);
    }
}

impl DepthBuffer {
    pub open spec fn wf(&self) -> bool {
        self.depth@.len() == self.width * self.height
    }

    /// The depth stored for the pixel `(x, y)`.
    pub open spec fn at(&self, x: int, y: int) -> i64 {
        self.depth@[cell(self.width as int, x, y)]
    }

    /// A depth buffer of the given size in which every pixel is at `FAR`.
    pub fn new(width: u32, height: u32) -> (d: DepthBuffer)
        requires
            width * height <= usize::MAX,
        ensures
            d.wf(),
            d.width == width,
            d.height == height,
            forall|i: int| 0 <= i < d.depth@.len() ==> d.depth@[i] == FAR,
    {
        let n = width as usize * height as usize;
        let mut depth: Vec<i64> = Vec::with_capacity(n);
        let mut i: usize = 0;
        while i < n
            invariant
                i <= n,
                depth@.len() == i,
                forall|j: int| 0 <= j < i ==> depth@[j] == FAR,
            decreases n - i,
        {
            depth.push(FAR);
            i = i + 1;
        }
        DepthBuffer { width, height, depth }
    }

    /// The depth stored for the pixel `(x, y)`.
    pub fn get(&self, x: u32, y: u32) -> (z: i64)
        requires
            self.wf(),
            x < self.width,
            y < self.height,
        ensures
            z == self.at(x as int, y as int),
    {
        proof {
            lemma_cell_in_grid(self.width as int, self.height as int, x as int, y as int);
        }
        let i = cell_index(self.width, self.height, x, y, self.depth.len());
        self.depth[i]
    }

    /// Stores `z` for the pixel `(x, y)` and leaves every other pixel as it was.
    pub fn set(&mut self, x: u32, y: u32, z: i64)
        requires
            old(self).wf(),
            x < old(self).width,
            y < old(self).height,
        ensures
            final(self).wf(),
            final(self).width == old(self).width,
            final(self).height == old(self).height,
            final(self).depth@ == old(self).depth@.update(
                cell(old(self).width as int, x as int, y as int),
                z,
            ),
    {
        let i = cell_index(self.width, self.height, x, y, self.depth.len());
        self.depth.set(i, z);
    }
}

/// The position of the pixel `(x, y)` in a grid of `n == width * height`
/// cells.
pub fn cell_index(width: u32, height: u32, x: u32, y: u32, n: usize) -> (i: usize)
    requires
        x < width,
        y < height,
        n == width * height,
    ensures
        i == cell(width as int, x as int, y as int),
        i < n,
{
    proof {
        lemma_cell_in_grid(width as int, height as int, x as int, y as int);
    }
    y as usize * width as usize + x as usize
}

/// A pixel inside the grid has its cell inside the grid, and the cell's
/// position fits a `usize`.
pub proof fn lemma_cell_in_grid(width: int, height: int, x: int, y: int)
    requires
        0 <= x < width,
        0 <= y < height,
    ensures
        0 <= cell(width, x, y) < width * height,
{
    assert(0 <= y * width + x < width * height) by (nonlinear_arith)
        requires
            0 <= x < width,
            0 <= y < height,
    ;
}

/// Every cell of a grid is the cell of the pixel `(i % width, i / width)`.
pub proof fn lemma_cell_of_index(width: int, height: int, i: int)
    requires
        0 <= width,
        0 <= height,
        0 <= i < width * height,
    ensures
        0 <= i % width < width,
        0 <= i / width < height,
        cell(width, i % width, i / width) == i,
{
    assert(width > 0) by (nonlinear_arith)
        requires
            0 <= width,
            0 <= height,
            0 <= i < width * height,
    ;
    vstd::arithmetic::div_mod::lemma_fundamental_div_mod(i, width);
    vstd::arithmetic::mul::lemma_mul_is_commutative(width, i / width);
    assert(i / width < height) by (nonlinear_arith)
        requires
            width > 0,
            i < width * height,
            i == width * (i / width) + i % width,
            0 <= i % width,
    ;
    assert(0 <= i / width) by (nonlinear_arith)
        requires
            width > 0,
            0 <= i,
            i == width * (i / width) + i % width,
            i % width < width,
    ;
}

impl Canvas {
    /// Two canvases of one size that agree on every pixel hold the same
    /// pixels.
    pub proof fn lemma_same_pixels(&self, other: &Canvas)
        requires
            self.wf(),
            other.wf(),
            self.width == other.width,
            self.height == other.height,
            forall|x: int, y: int|
                0 <= x < self.width && 0 <= y < self.height ==> #[trigger] self.at(x, y) == other.at(x, y),
        ensures
            self.pixels@ == other.pixels@,
    {
        let w = self.width as int;
        let h = self.height as int;
        assert forall|i: int| 0 <= i < self.pixels@.len() implies self.pixels@[i] == other.pixels@[i] by {
            lemma_cell_of_index(w, h, i);
            assert(self.at(i % w, i / w) == other.at(i % w, i / w));
        }
        assert(self.pixels@ =~= other.pixels@);
    }
}

impl DepthBuffer {
    /// Two depth buffers of one size that agree on every pixel hold the same
    /// depths.
    pub proof fn lemma_same_depths(&self, other: &DepthBuffer)
        requires
            self.wf(),
            other.wf(),
            self.width == other.width,
            self.height == other.height,
            forall|x: int, y: int|
                0 <= x < self.width && 0 <= y < self.height ==> #[trigger] self.at(x, y) == other.at(x, y),
        ensures
            self.depth@ == other.depth@,
    {
        let w = self.width as int;
        let h = self.height as int;
        assert forall|i: int| 0 <= i < self.depth@.len() implies self.depth@[i] == other.depth@[i] by {
            lemma_cell_of_index(w, h, i);
            assert(self.at(i % w, i / w) == other.at(i % w, i / w));
        }
        assert(self.depth@ =~= other.depth@);
    }
}

/// Two pixels of one grid share a cell only when they are the same pixel.
pub proof fn lemma_cell_injective(width: int, x1: int, y1: int, x2: int, y2: int)
    requires
        0 <= x1 < width,
        0 <= x2 < width,
        0 <= y1,
        0 <= y2,
        cell(width, x1, y1) == cell(width, x2, y2),
    ensures
        x1 == x2,
        y1 == y2,
{
    assert(y1 == y2) by (nonlinear_arith)
        requires
            0 <= x1 < width,
            0 <= x2 < width,
            0 <= y1,
            0 <= y2,
            y1 * width + x1 == y2 * width + x2,
    ;
}

} // verus!
