//! Scene setup and the seed shapes: well-known Game-of-Life patterns
//! stamped onto a surface cell by cell, plus the initial scene paint.
//!
//! Each seeding function is specified as the exact chain of cell writes it
//! performs, so a caller knows the resulting surface completely; a write
//! whose coordinate falls outside the grid is a silent no-op, as with
//! [`Framebuffer::set_cell`] itself.

use vstd::prelude::*;

use crate::framebuffer::{lemma_idx_bounds, FbView, Framebuffer};

verus! {

/// The surface after a glider has been stamped with its corner at
/// `(x, y)`: the five cells of the canonical diagonally traveling shape.
pub open spec fn glider_spec(fb: FbView, x: int, y: int) -> FbView {
    fb.set_cell_spec(x + 1, y, true).set_cell_spec(x + 2, y + 1, true).set_cell_spec(
        x,
        y + 2,
        true,
    ).set_cell_spec(x + 1, y + 2, true).set_cell_spec(x + 2, y + 2, true)
}

/// The surface after a blinker — a horizontal bar of three live cells —
/// has been stamped with its left cell at `(x, y)`.
pub open spec fn blinker_spec(fb: FbView, x: int, y: int) -> FbView {
    fb.set_cell_spec(x, y, true).set_cell_spec(x + 1, y, true).set_cell_spec(x + 2, y, true)
}

/// The surface after a pulsar — the 48-cell period-3 oscillator — has been
/// stamped with its upper-left reference point at `(x, y)`.
pub open spec fn pulsar_spec(fb: FbView, x: int, y: int) -> FbView {
    fb.set_cell_spec(x + 2, y, true).set_cell_spec(x + 3, y, true).set_cell_spec(
        x + 4,
        y,
        true,
    ).set_cell_spec(x + 8, y, true).set_cell_spec(x + 9, y, true).set_cell_spec(
        x + 10,
        y,
        true,
    ).set_cell_spec(x, y + 2, true).set_cell_spec(x + 5, y + 2, true).set_cell_spec(
        x + 7,
        y + 2,
        true,
    ).set_cell_spec(x + 12, y + 2, true).set_cell_spec(x, y + 3, true).set_cell_spec(
        x + 5,
        y + 3,
        true,
    ).set_cell_spec(x + 7, y + 3, true).set_cell_spec(x + 12, y + 3, true).set_cell_spec(
        x,
        y + 4,
        true,
    ).set_cell_spec(x + 5, y + 4, true).set_cell_spec(x + 7, y + 4, true).set_cell_spec(
        x + 12,
        y + 4,
        true,
    ).set_cell_spec(x + 2, y + 5, true).set_cell_spec(x + 3, y + 5, true).set_cell_spec(
        x + 4,
        y + 5,
        true,
    ).set_cell_spec(x + 8, y + 5, true).set_cell_spec(x + 9, y + 5, true).set_cell_spec(
        x + 10,
        y + 5,
        true,
    ).set_cell_spec(x + 2, y + 7, true).set_cell_spec(x + 3, y + 7, true).set_cell_spec(
        x + 4,
        y + 7,
        true,
    ).set_cell_spec(x + 8, y + 7, true).set_cell_spec(x + 9, y + 7, true).set_cell_spec(
        x + 10,
        y + 7,
        true,
    ).set_cell_spec(x, y + 8, true).set_cell_spec(x + 5, y + 8, true).set_cell_spec(
        x + 7,
        y + 8,
        true,
    ).set_cell_spec(x + 12, y + 8, true).set_cell_spec(x, y + 9, true).set_cell_spec(
        x + 5,
        y + 9,
        true,
    ).set_cell_spec(x + 7, y + 9, true).set_cell_spec(x + 12, y + 9, true).set_cell_spec(
        x,
        y + 10,
        true,
    ).set_cell_spec(x + 5, y + 10, true).set_cell_spec(x + 7, y + 10, true).set_cell_spec(
        x + 12,
        y + 10,
        true,
    ).set_cell_spec(x + 2, y + 12, true).set_cell_spec(x + 3, y + 12, true).set_cell_spec(
        x + 4,
        y + 12,
        true,
    ).set_cell_spec(x + 8, y + 12, true).set_cell_spec(x + 9, y + 12, true).set_cell_spec(
        x + 10,
        y + 12,
        true,
    )
}

/// The surface after the 12-cell pentadecathlon seed has been stamped at
/// `(x, y)`: a bar of eight cells in row `y`, flanked by single cells in
/// columns `x + 2` and `x + 5` of the rows above and below (`y - 1` and
/// `y + 1`).  The shape is fixed; only its position depends on `(x, y)`.
/// A cell whose row falls outside the grid (the row above, when `y` is
/// 0) is silently skipped, as with every out-of-range write.
pub open spec fn pentadecathlon_spec(fb: FbView, x: int, y: int) -> FbView {
    fb.set_cell_spec(x, y, true).set_cell_spec(x + 1, y, true).set_cell_spec(
        x + 2,
        y,
        true,
    ).set_cell_spec(x + 3, y, true).set_cell_spec(x + 4, y, true).set_cell_spec(
        x + 5,
        y,
        true,
    ).set_cell_spec(x + 6, y, true).set_cell_spec(x + 7, y, true).set_cell_spec(
        x + 2,
        y - 1,
        true,
    ).set_cell_spec(x + 5, y - 1, true).set_cell_spec(x + 2, y + 1, true).set_cell_spec(
        x + 5,
        y + 1,
        true,
    )
}

/// Paints the initial scene: a `0x333355` background over the whole
/// surface with every cell dead, the draw color set to `0x00FF1F`, and one
/// magenta annotation pixel at `(20, 40)` (left untouched if the surface
/// is too small for it).
pub fn render(framebuffer: &mut Framebuffer)
    requires
        old(framebuffer)@.wf(),
    ensures
        final(framebuffer)@.wf(),
        final(framebuffer)@.width == old(framebuffer)@.width,
        final(framebuffer)@.height == old(framebuffer)@.height,
        final(framebuffer)@.background_color == 0x333355u32,
        final(framebuffer)@.current_color == 0x00FF1Fu32,
        final(framebuffer)@.line_color == old(framebuffer)@.line_color,
        final(framebuffer)@.buffer.len() == old(framebuffer)@.buffer.len(),
        final(framebuffer)@.cells.len() == old(framebuffer)@.cells.len(),
        forall|i: int| 0 <= i < final(framebuffer)@.cells.len() ==> !final(framebuffer)@.cells[i],
        forall|i: int|
            0 <= i < final(framebuffer)@.buffer.len() && !(final(framebuffer)@.in_bounds(20, 40)
                && i == final(framebuffer)@.flip_idx(20, 40)) ==> final(framebuffer)@.buffer[i]
                == 0x333355u32,
        final(framebuffer)@.in_bounds(20, 40) ==> final(framebuffer)@.buffer[final(framebuffer)@.flip_idx(20, 40)] == 0xFB00FFu32,
{
    framebuffer.set_background_color(0x333355);
    framebuffer.clear();
    framebuffer.set_current_color(0x00FF1F);
    framebuffer.point(20, 40, 0xFB00FF);
    proof {
        if framebuffer@.in_bounds(20, 40) {
            lemma_idx_bounds(
                20,
                framebuffer@.height - 1 - 40,
                framebuffer@.width as int,
                framebuffer@.height as int,
            );
        }
    }
}

/// Stamps a glider whose bounding box has its corner at `(x, y)`.
pub fn create_glider(framebuffer: &mut Framebuffer, x: usize, y: usize)
    requires
        old(framebuffer)@.wf(),
        x + 2 <= usize::MAX,
        y + 2 <= usize::MAX,
    ensures
        final(framebuffer)@.wf(),
        final(framebuffer)@ == glider_spec(old(framebuffer)@, x as int, y as int),
{
    framebuffer.set_cell(x + 1, y, true);
    framebuffer.set_cell(x + 2, y + 1, true);
    framebuffer.set_cell(x, y + 2, true);
    framebuffer.set_cell(x + 1, y + 2, true);
    framebuffer.set_cell(x + 2, y + 2, true);
}

/// Stamps a blinker: three live cells in a horizontal row starting at
/// `(x, y)`.
pub fn create_blinker(framebuffer: &mut Framebuffer, x: usize, y: usize)
    requires
        old(framebuffer)@.wf(),
        x + 2 <= usize::MAX,
    ensures
        final(framebuffer)@.wf(),
        final(framebuffer)@ == blinker_spec(old(framebuffer)@, x as int, y as int),
{
    framebuffer.set_cell(x, y, true);
    framebuffer.set_cell(x + 1, y, true);
    framebuffer.set_cell(x + 2, y, true);
}

/// Stamps a pulsar with its upper-left reference point at `(x, y)`.
pub fn create_pulsar(framebuffer: &mut Framebuffer, x: usize, y: usize)
    requires
        old(framebuffer)@.wf(),
        x + 12 <= usize::MAX,
        y + 12 <= usize::MAX,
    ensures
        final(framebuffer)@.wf(),
        final(framebuffer)@ == pulsar_spec(old(framebuffer)@, x as int, y as int),
{
    framebuffer.set_cell(x + 2, y, true);
    framebuffer.set_cell(x + 3, y, true);
    framebuffer.set_cell(x + 4, y, true);
    framebuffer.set_cell(x + 8, y, true);
    framebuffer.set_cell(x + 9, y, true);
    framebuffer.set_cell(x + 10, y, true);
    framebuffer.set_cell(x, y + 2, true);
    framebuffer.set_cell(x + 5, y + 2, true);
    framebuffer.set_cell(x + 7, y + 2, true);
    framebuffer.set_cell(x + 12, y + 2, true);
    framebuffer.set_cell(x, y + 3, true);
    framebuffer.set_cell(x + 5, y + 3, true);
    framebuffer.set_cell(x + 7, y + 3, true);
    framebuffer.set_cell(x + 12, y + 3, true);
    framebuffer.set_cell(x, y + 4, true);
    framebuffer.set_cell(x + 5, y + 4, true);
    framebuffer.set_cell(x + 7, y + 4, true);
    framebuffer.set_cell(x + 12, y + 4, true);
    framebuffer.set_cell(x + 2, y + 5, true);
    framebuffer.set_cell(x + 3, y + 5, true);
    framebuffer.set_cell(x + 4, y + 5, true);
    framebuffer.set_cell(x + 8, y + 5, true);
    framebuffer.set_cell(x + 9, y + 5, true);
    framebuffer.set_cell(x + 10, y + 5, true);
    framebuffer.set_cell(x + 2, y + 7, true);
    framebuffer.set_cell(x + 3, y + 7, true);
    framebuffer.set_cell(x + 4, y + 7, true);
    framebuffer.set_cell(x + 8, y + 7, true);
    framebuffer.set_cell(x + 9, y + 7, true);
    framebuffer.set_cell(x + 10, y + 7, true);
    framebuffer.set_cell(x, y + 8, true);
    framebuffer.set_cell(x + 5, y + 8, true);
    framebuffer.set_cell(x + 7, y + 8, true);
    framebuffer.set_cell(x + 12, y + 8, true);
    framebuffer.set_cell(x, y + 9, true);
    framebuffer.set_cell(x + 5, y + 9, true);
    framebuffer.set_cell(x + 7, y + 9, true);
    framebuffer.set_cell(x + 12, y + 9, true);
    framebuffer.set_cell(x, y + 10, true);
    framebuffer.set_cell(x + 5, y + 10, true);
    framebuffer.set_cell(x + 7, y + 10, true);
    framebuffer.set_cell(x + 12, y + 10, true);
    framebuffer.set_cell(x + 2, y + 12, true);
    framebuffer.set_cell(x + 3, y + 12, true);
    framebuffer.set_cell(x + 4, y + 12, true);
    framebuffer.set_cell(x + 8, y + 12, true);
    framebuffer.set_cell(x + 9, y + 12, true);
    framebuffer.set_cell(x + 10, y + 12, true);
}

/// Stamps the pentadecathlon seed at `(x, y)`; the two cells of the row
/// above the bar are skipped when the bar sits in row 0.
pub fn create_pentadecathlon(framebuffer: &mut Framebuffer, x: usize, y: usize)
    requires
        old(framebuffer)@.wf(),
        x + 7 <= usize::MAX,
        y + 1 <= usize::MAX,
    ensures
        final(framebuffer)@.wf(),
        final(framebuffer)@ == pentadecathlon_spec(old(framebuffer)@, x as int, y as int),
{
    framebuffer.set_cell(x, y, true);
    framebuffer.set_cell(x + 1, y, true);
    framebuffer.set_cell(x + 2, y, true);
    framebuffer.set_cell(x + 3, y, true);
    framebuffer.set_cell(x + 4, y, true);
    framebuffer.set_cell(x + 5, y, true);
    framebuffer.set_cell(x + 6, y, true);
    framebuffer.set_cell(x + 7, y, true);
    if y >= 1 {
        framebuffer.set_cell(x + 2, y - 1, true);
        framebuffer.set_cell(x + 5, y - 1, true);
    }
    framebuffer.set_cell(x + 2, y + 1, true);
    framebuffer.set_cell(x + 5, y + 1, true);
}

} // verus!
