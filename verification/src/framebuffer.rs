//! The pixel surface: a packed RGB pixel buffer coupled with a grid of
//! boolean cell states, addressed by logical coordinates with the vertical
//! flip (grid row 0 at the bottom of the image) kept inside this module.

use vstd::prelude::*;

verus! {

/// Mathematical view of a [`Framebuffer`]: the two parallel grids as
/// sequences, plus the dimensions and the three configured colors.
///
/// The cell grid is indexed by `y * width + x`; the pixel buffer by
/// `(height - 1 - y) * width + x`, so that logical row 0 is the bottom row
/// of the displayed image.
#[verifier::ext_equal]
pub ghost struct FbView {
    pub width: nat,
    pub height: nat,
    pub buffer: Seq<u32>,
    pub cells: Seq<bool>,
    pub background_color: u32,
    pub current_color: u32,
    pub line_color: u32,
}

impl FbView {
    /// Both grids hold exactly one entry per coordinate.
    pub open spec fn wf(self) -> bool {
        &&& self.buffer.len() == self.width * self.height
        &&& self.cells.len() == self.width * self.height
    }

    pub open spec fn in_bounds(self, x: int, y: int) -> bool {
        0 <= x < self.width && 0 <= y < self.height
    }

    /// Index of logical coordinate `(x, y)` in the cell grid.
    pub open spec fn idx(self, x: int, y: int) -> int {
        y * self.width + x
    }

    /// Index of logical coordinate `(x, y)` in the pixel buffer: the row is
    /// mirrored so that row 0 lands at the bottom of the image.
    pub open spec fn flip_idx(self, x: int, y: int) -> int {
        (self.height - 1 - y) * self.width + x
    }

    /// The cell at `(x, y)`, dead for every out-of-range coordinate.
    pub open spec fn alive_at(self, x: int, y: int) -> bool {
        self.in_bounds(x, y) && self.cells[self.idx(x, y)]
    }

    /// The color a cell of the given state is painted with.
    pub open spec fn cell_color(self, alive: bool) -> u32 {
        if alive {
            self.current_color
        } else {
            self.background_color
        }
    }

    /// Effect of writing one raw pixel: the flipped buffer slot changes,
    /// everything else stays; out-of-range coordinates change nothing.
    pub open spec fn point_spec(self, x: int, y: int, color: u32) -> FbView {
        if self.in_bounds(x, y) {
            FbView { buffer: self.buffer.update(self.flip_idx(x, y), color), ..self }
        } else {
            self
        }
    }

    /// Effect of setting one cell: the cell flag and its flipped pixel both
    /// change, everything else stays; out-of-range coordinates change
    /// nothing.
    pub open spec fn set_cell_spec(self, x: int, y: int, alive: bool) -> FbView {
        if self.in_bounds(x, y) {
            FbView {
                cells: self.cells.update(self.idx(x, y), alive),
                buffer: self.buffer.update(self.flip_idx(x, y), self.cell_color(alive)),
                ..self
            }
        } else {
            self
        }
    }
}

/// Row-major indexing stays inside the grid.
pub proof fn lemma_idx_bounds(x: int, y: int, w: int, h: int)
    by (nonlinear_arith)
    requires
        0 <= x < w,
        0 <= y < h,
    ensures
        0 <= y * w + x < w * h,
        y * w + x < h * w,
{
}

/// Distinct coordinates of one grid row-major-index to distinct slots.
pub proof fn lemma_idx_distinct(w: int, x1: int, y1: int, x2: int, y2: int)
    by (nonlinear_arith)
    requires
        0 <= x1 < w,
        0 <= x2 < w,
        x1 != x2 || y1 != y2,
    ensures
        y1 * w + x1 != y2 * w + x2,
{
}

/// Setting an already-dead cell dead again changes nothing, provided its
/// pixel still shows the background color (a pixel overpainted through
/// `point` is repainted to the background instead).
pub proof fn lemma_set_dead_cell_idempotent(fb: FbView, x: int, y: int)
    requires
        fb.wf(),
        fb.in_bounds(x, y),
        !fb.alive_at(x, y),
        fb.buffer[fb.flip_idx(x, y)] == fb.background_color,
    ensures
        fb.set_cell_spec(x, y, false) == fb,
{
    lemma_idx_bounds(x, y, fb.width as int, fb.height as int);
    lemma_idx_bounds(x, fb.height - 1 - y, fb.width as int, fb.height as int);
    assert(fb.set_cell_spec(x, y, false).cells =~= fb.cells);
    assert(fb.set_cell_spec(x, y, false).buffer =~= fb.buffer);
    assert(fb.set_cell_spec(x, y, false) =~= fb);
}

/// A fixed-size grid of packed 24-bit RGB pixels (stored as `u32`, top byte
/// unused) with a parallel grid of cell states and three configured colors.
pub struct Framebuffer {
    width: usize,
    height: usize,
    buffer: Vec<u32>,
    background_color: u32,
    current_color: u32,
    line_color: u32,
    cells: Vec<bool>,
}

impl View for Framebuffer {
    type V = FbView;

    closed spec fn view(&self) -> FbView {
        FbView {
            width: self.width as nat,
            height: self.height as nat,
            buffer: self.buffer@,
            cells: self.cells@,
            background_color: self.background_color,
            current_color: self.current_color,
            line_color: self.line_color,
        }
    }
}

impl Framebuffer {
    /// The grid area fits in `usize`, because the cell vector holds one
    /// entry per coordinate.
    pub proof fn lemma_area_fits(&self)
        requires
            self@.wf(),
        ensures
            self@.width * self@.height <= usize::MAX,
    {
        broadcast use vstd::std_specs::vec::group_vec_axioms;

        assert(self.cells.len() <= usize::MAX);
    }

    /// A fresh surface: every pixel zero, every cell dead, black background,
    /// white draw and line colors.
    pub fn new(width: usize, height: usize) -> (fb: Framebuffer)
        requires
            width >= 1,
            height >= 1,
            width * height <= usize::MAX,
        ensures
            fb@.wf(),
            fb@.width == width,
            fb@.height == height,
            fb@.background_color == 0x000000u32,
            fb@.current_color == 0xFFFFFFu32,
            fb@.line_color == 0xFFFFFFu32,
            forall|i: int| 0 <= i < fb@.buffer.len() ==> fb@.buffer[i] == 0u32,
            forall|i: int| 0 <= i < fb@.cells.len() ==> !fb@.cells[i],
    {
        let n = width * height;
        let mut buffer: Vec<u32> = Vec::new();
        let mut cells: Vec<bool> = Vec::new();
        let mut i: usize = 0;
        while i < n
            invariant
                i <= n,
                buffer@.len() == i,
                cells@.len() == i,
                forall|j: int| 0 <= j < i ==> buffer@[j] == 0u32,
                forall|j: int| 0 <= j < i ==> !cells@[j],
            decreases n - i,
        {
            buffer.push(0);
            cells.push(false);
            i = i + 1;
        }
        Framebuffer {
            width,
            height,
            buffer,
            background_color: 0x000000,
            current_color: 0xFFFFFF,
            line_color: 0xFFFFFF,
            cells,
        }
    }

    /// Sets the cell at `(x, y)` and paints its pixel with the draw color if
    /// alive, the background color otherwise.  Out-of-range coordinates are
    /// a silent no-op.
    pub fn set_cell(&mut self, x: usize, y: usize, alive: bool)
        requires
            old(self)@.wf(),
        ensures
            final(self)@.wf(),
            final(self)@ == old(self)@.set_cell_spec(x as int, y as int, alive),
            old(self)@.in_bounds(x as int, y as int) ==> final(self)@.alive_at(x as int, y as int)
                == alive,
            old(self)@.in_bounds(x as int, y as int) ==> final(self)@.buffer[old(
                self,
            )@.flip_idx(x as int, y as int)] == old(self)@.cell_color(alive),
    {
        if x < self.width && y < self.height {
            proof {
                self.lemma_area_fits();
                lemma_idx_bounds(x as int, y as int, self.width as int, self.height as int);
                lemma_idx_bounds(
                    x as int,
                    self.height - 1 - y,
                    self.width as int,
                    self.height as int,
                );
            }
            let i = y * self.width + x;
            self.cells.set(i, alive);
            let color = if alive {
                self.current_color
            } else {
                self.background_color
            };
            self.point(x, y, color);
        }
    }

    /// Whether the cell at `(x, y)` is alive; `false` for every out-of-range
    /// coordinate.
    pub fn is_alive(&self, x: usize, y: usize) -> (r: bool)
        requires
            self@.wf(),
        ensures
            r == self@.alive_at(x as int, y as int),
    {
        if x < self.width && y < self.height {
            proof {
                self.lemma_area_fits();
                lemma_idx_bounds(x as int, y as int, self.width as int, self.height as int);
            }
            let i = y * self.width + x;
            self.cells[i]
        } else {
            false
        }
    }

    pub fn width(&self) -> (r: usize)
        ensures
            r == self@.width,
    {
        self.width
    }

    pub fn height(&self) -> (r: usize)
        ensures
            r == self@.height,
    {
        self.height
    }

    /// Read-only access to the raw pixel buffer, for presentation.
    pub fn buffer(&self) -> (r: &Vec<u32>)
        ensures
            r@ == self@.buffer,
    {
        &self.buffer
    }

    /// The pixel shown for logical coordinate `(x, y)`, `None` out of range.
    pub fn pixel_at(&self, x: usize, y: usize) -> (r: Option<u32>)
        requires
            self@.wf(),
        ensures
            self@.in_bounds(x as int, y as int) ==> r == Some(
                self@.buffer[self@.flip_idx(x as int, y as int)],
            ),
            !self@.in_bounds(x as int, y as int) ==> r is None,
    {
        if x < self.width && y < self.height {
            proof {
                self.lemma_area_fits();
                lemma_idx_bounds(
                    x as int,
                    self.height - 1 - y,
                    self.width as int,
                    self.height as int,
                );
            }
            let i = (self.height - 1 - y) * self.width + x;
            Some(self.buffer[i])
        } else {
            None
        }
    }

    pub fn set_background_color(&mut self, color: u32)
        ensures
            final(self)@ == (FbView { background_color: color, ..old(self)@ }),
    {
        self.background_color = color;
    }

    pub fn set_current_color(&mut self, color: u32)
        ensures
            final(self)@ == (FbView { current_color: color, ..old(self)@ }),
    {
        self.current_color = color;
    }

    pub fn set_line_color(&mut self, color: u32)
        ensures
            final(self)@ == (FbView { line_color: color, ..old(self)@ }),
    {
        self.line_color = color;
    }

    /// Resets every pixel to the background color and every cell to dead.
    pub fn clear(&mut self)
        requires
            old(self)@.wf(),
        ensures
            final(self)@.wf(),
            final(self)@.width == old(self)@.width,
            final(self)@.height == old(self)@.height,
            final(self)@.background_color == old(self)@.background_color,
            final(self)@.current_color == old(self)@.current_color,
            final(self)@.line_color == old(self)@.line_color,
            final(self)@.buffer.len() == old(self)@.buffer.len(),
            final(self)@.cells.len() == old(self)@.cells.len(),
            forall|i: int|
                0 <= i < final(self)@.buffer.len() ==> final(self)@.buffer[i] == old(
                    self,
                )@.background_color,
            forall|i: int| 0 <= i < final(self)@.cells.len() ==> !final(self)@.cells[i],
    {
        let ghost g0 = self@;
        let mut i: usize = 0;
        let n = self.buffer.len();
        while i < n
            invariant
                i <= n,
                self@.width == g0.width,
                self@.height == g0.height,
                self@.background_color == g0.background_color,
                self@.current_color == g0.current_color,
                self@.line_color == g0.line_color,
                self@.cells == g0.cells,
                self@.buffer.len() == n,
                forall|j: int| 0 <= j < i ==> self@.buffer[j] == g0.background_color,
                forall|j: int| i <= j < n ==> self@.buffer[j] == g0.buffer[j],
            decreases n - i,
        {
            let color = self.background_color;
            self.buffer.set(i, color);
            i = i + 1;
        }
        let mut k: usize = 0;
        let m = self.cells.len();
        while k < m
            invariant
                k <= m,
                self@.width == g0.width,
                self@.height == g0.height,
                self@.background_color == g0.background_color,
                self@.current_color == g0.current_color,
                self@.line_color == g0.line_color,
                self@.cells.len() == m,
                self@.buffer.len() == g0.buffer.len(),
                forall|j: int| 0 <= j < self@.buffer.len() ==> self@.buffer[j] == g0.background_color,
                forall|j: int| 0 <= j < k ==> !self@.cells[j],
            decreases m - k,
        {
            self.cells.set(k, false);
            k = k + 1;
        }
    }

    /// Writes one raw pixel, bypassing the cell grid; out-of-range
    /// coordinates are a silent no-op.
    pub fn point(&mut self, x: usize, y: usize, color: u32)
        requires
            old(self)@.wf(),
        ensures
            final(self)@.wf(),
            final(self)@ == old(self)@.point_spec(x as int, y as int, color),
    {
        if x < self.width && y < self.height {
            proof {
                self.lemma_area_fits();
                lemma_idx_bounds(
                    x as int,
                    self.height - 1 - y,
                    self.width as int,
                    self.height as int,
                );
            }
            let inverted_y = self.height - 1 - y;
            let i = inverted_y * self.width + x;
            self.buffer.set(i, color);
        }
    }
}

} // verus!
