//! One Game-of-Life generation step over a [`Framebuffer`], with Moore
//! neighborhoods counted under toroidal wraparound: each axis wraps to the
//! opposite edge, so the grid has no border.
//!
//! The step is two-phase: the next state of every cell is computed from the
//! current grid into a scratch grid first, and only then written back, so
//! that every neighbor count sees the old generation only.

use vstd::prelude::*;

use crate::framebuffer::{lemma_idx_bounds, lemma_idx_distinct, FbView, Framebuffer};

verus! {

/// One step towards the lower edge of a wrapping axis of length `m`.
pub open spec fn wrap_dec(v: int, m: int) -> int {
    if v == 0 {
        m - 1
    } else {
        v - 1
    }
}

/// One step towards the upper edge of a wrapping axis of length `m`.
pub open spec fn wrap_inc(v: int, m: int) -> int {
    if v + 1 == m {
        0
    } else {
        v + 1
    }
}

pub open spec fn count_alive(b: bool) -> int {
    if b {
        1
    } else {
        0
    }
}

/// How many of the eight Moore neighbors of `(x, y)` are alive, both axes
/// wrapped independently.  On a degenerate axis of length 1 a cell is its
/// own wrapped neighbor and is counted as such.
pub open spec fn neighbor_count(fb: FbView, x: int, y: int) -> int {
    let xm = wrap_dec(x, fb.width as int);
    let xp = wrap_inc(x, fb.width as int);
    let ym = wrap_dec(y, fb.height as int);
    let yp = wrap_inc(y, fb.height as int);
    count_alive(fb.alive_at(xm, ym)) + count_alive(fb.alive_at(x, ym)) + count_alive(
        fb.alive_at(xp, ym),
    ) + count_alive(fb.alive_at(xm, y)) + count_alive(fb.alive_at(xp, y)) + count_alive(
        fb.alive_at(xm, yp),
    ) + count_alive(fb.alive_at(x, yp)) + count_alive(fb.alive_at(xp, yp))
}

/// The standard rule: a live cell survives with two or three live
/// neighbors; a dead cell is born with exactly three.
pub open spec fn next_alive(fb: FbView, x: int, y: int) -> bool {
    if fb.alive_at(x, y) {
        neighbor_count(fb, x, y) == 2 || neighbor_count(fb, x, y) == 3
    } else {
        neighbor_count(fb, x, y) == 3
    }
}

/// A live cell with no live neighbors dies in the next generation.
pub proof fn lemma_isolated_cell_dies(fb: FbView, x: int, y: int)
    requires
        fb.wf(),
        fb.in_bounds(x, y),
        fb.alive_at(x, y),
        neighbor_count(fb, x, y) == 0,
    ensures
        !next_alive(fb, x, y),
{
}

/// Toroidal wraparound: a live cell in column 0 is an orthogonal neighbor
/// of the cell in column `width - 1` of the same row, and vice versa, so
/// each contributes to the other's neighbor count.
pub proof fn lemma_toroidal_wrap(fb: FbView, y: int)
    requires
        fb.wf(),
        fb.width >= 1,
        0 <= y < fb.height,
    ensures
        fb.alive_at(0, y) ==> neighbor_count(fb, fb.width - 1, y) >= 1,
        fb.alive_at(fb.width - 1, y) ==> neighbor_count(fb, 0, y) >= 1,
{
    assert(wrap_inc(fb.width - 1, fb.width as int) == 0);
    assert(wrap_dec(0, fb.width as int) == fb.width - 1);
}

/// Counts the live Moore neighbors of an in-range cell, wrapping both axes.
#[verifier::rlimit(50)]
fn count_live_neighbors(framebuffer: &Framebuffer, x: usize, y: usize) -> (n: u8)
    requires
        framebuffer@.wf(),
        x < framebuffer@.width,
        y < framebuffer@.height,
    ensures
        n == neighbor_count(framebuffer@, x as int, y as int),
{
    let width = framebuffer.width();
    let height = framebuffer.height();
    let xm = if x == 0 {
        width - 1
    } else {
        x - 1
    };
    let xp = if x + 1 == width {
        0
    } else {
        x + 1
    };
    let ym = if y == 0 {
        height - 1
    } else {
        y - 1
    };
    let yp = if y + 1 == height {
        0
    } else {
        y + 1
    };
    let mut live_neighbors: u8 = 0;
    if framebuffer.is_alive(xm, ym) {
        live_neighbors = live_neighbors + 1;
    }
    if framebuffer.is_alive(x, ym) {
        live_neighbors = live_neighbors + 1;
    }
    if framebuffer.is_alive(xp, ym) {
        live_neighbors = live_neighbors + 1;
    }
    if framebuffer.is_alive(xm, y) {
        live_neighbors = live_neighbors + 1;
    }
    if framebuffer.is_alive(xp, y) {
        live_neighbors = live_neighbors + 1;
    }
    if framebuffer.is_alive(xm, yp) {
        live_neighbors = live_neighbors + 1;
    }
    if framebuffer.is_alive(x, yp) {
        live_neighbors = live_neighbors + 1;
    }
    if framebuffer.is_alive(xp, yp) {
        live_neighbors = live_neighbors + 1;
    }
    live_neighbors
}

/// Advances the surface by one generation: every cell's next state is the
/// standard rule applied to its current state and its toroidally wrapped
/// neighbor count in the *current* grid, and every pixel is repainted to
/// match its cell's new state.
pub fn next_generation(framebuffer: &mut Framebuffer)
    requires
        old(framebuffer)@.wf(),
    ensures
        final(framebuffer)@.wf(),
        final(framebuffer)@.width == old(framebuffer)@.width,
        final(framebuffer)@.height == old(framebuffer)@.height,
        final(framebuffer)@.background_color == old(framebuffer)@.background_color,
        final(framebuffer)@.current_color == old(framebuffer)@.current_color,
        final(framebuffer)@.line_color == old(framebuffer)@.line_color,
        forall|x: int, y: int|
            old(framebuffer)@.in_bounds(x, y) ==> final(framebuffer)@.cells[old(
                framebuffer,
            )@.idx(x, y)] == next_alive(old(framebuffer)@, x, y),
        forall|x: int, y: int|
            old(framebuffer)@.in_bounds(x, y) ==> final(framebuffer)@.buffer[old(
                framebuffer,
            )@.flip_idx(x, y)] == old(framebuffer)@.cell_color(next_alive(old(framebuffer)@, x, y)),
{
    let width = framebuffer.width();
    let height = framebuffer.height();
    let ghost g0 = framebuffer@;
    let mut new_cells: Vec<bool> = Vec::new();
    let mut y: usize = 0;
    while y < height
        invariant
            g0.wf(),
            framebuffer@ == g0,
            width == g0.width,
            height == g0.height,
            y <= height,
            new_cells@.len() == y * width,
            forall|j: int, i: int|
                0 <= j < y && 0 <= i < width ==> new_cells@[j * width + i] == next_alive(g0, i, j),
        decreases height - y,
    {
        let mut x: usize = 0;
        while x < width
            invariant
                g0.wf(),
                framebuffer@ == g0,
                width == g0.width,
                height == g0.height,
                y < height,
                x <= width,
                new_cells@.len() == y * width + x,
                forall|j: int, i: int|
                    0 <= j < y && 0 <= i < width ==> new_cells@[j * width + i] == next_alive(
                        g0,
                        i,
                        j,
                    ),
                forall|i: int|
                    0 <= i < x ==> new_cells@[y * width + i] == next_alive(g0, i, y as int),
            decreases width - x,
        {
            let live_neighbors = count_live_neighbors(framebuffer, x, y);
            let cell_alive = framebuffer.is_alive(x, y);
            let next = if cell_alive {
                live_neighbors == 2 || live_neighbors == 3
            } else {
                live_neighbors == 3
            };
            new_cells.push(next);
            proof {
                assert forall|j: int, i: int|
                    0 <= j < y && 0 <= i < width implies #[trigger] (j * width + i)
                    < y * width by {
                    lemma_idx_bounds(i, j, width as int, y as int);
                }
            }
            x = x + 1;
        }
        proof {
            assert((y + 1) * width == y * width + width) by (nonlinear_arith);
        }
        y = y + 1;
    }
    proof {
        framebuffer.lemma_area_fits();
    }
    let mut y: usize = 0;
    while y < height
        invariant
            g0.wf(),
            g0.width * g0.height <= usize::MAX,
            framebuffer@.wf(),
            framebuffer@.width == g0.width,
            framebuffer@.height == g0.height,
            framebuffer@.background_color == g0.background_color,
            framebuffer@.current_color == g0.current_color,
            framebuffer@.line_color == g0.line_color,
            width == g0.width,
            height == g0.height,
            y <= height,
            new_cells@.len() == height * width,
            forall|j: int, i: int|
                0 <= j < height && 0 <= i < width ==> new_cells@[j * width + i] == next_alive(
                    g0,
                    i,
                    j,
                ),
            forall|j: int, i: int|
                0 <= j < y && 0 <= i < width ==> framebuffer@.cells[g0.idx(i, j)] == next_alive(
                    g0,
                    i,
                    j,
                ) && framebuffer@.buffer[g0.flip_idx(i, j)] == g0.cell_color(next_alive(g0, i, j)),
        decreases height - y,
    {
        let mut x: usize = 0;
        while x < width
            invariant
                g0.wf(),
                g0.width * g0.height <= usize::MAX,
                framebuffer@.wf(),
                framebuffer@.width == g0.width,
                framebuffer@.height == g0.height,
                framebuffer@.background_color == g0.background_color,
                framebuffer@.current_color == g0.current_color,
                framebuffer@.line_color == g0.line_color,
                width == g0.width,
                height == g0.height,
                y < height,
                x <= width,
                new_cells@.len() == height * width,
                forall|j: int, i: int|
                    0 <= j < height && 0 <= i < width ==> new_cells@[j * width + i] == next_alive(
                        g0,
                        i,
                        j,
                    ),
                forall|j: int, i: int|
                    (0 <= j < y && 0 <= i < width) || (j == y && 0 <= i < x)
                        ==> framebuffer@.cells[g0.idx(i, j)] == next_alive(g0, i, j)
                        && framebuffer@.buffer[g0.flip_idx(i, j)] == g0.cell_color(
                        next_alive(g0, i, j),
                    ),
            decreases width - x,
        {
            proof {
                lemma_idx_bounds(x as int, y as int, width as int, height as int);
            }
            let v = new_cells[y * width + x];
            let ghost before = framebuffer@;
            framebuffer.set_cell(x, y, v);
            proof {
                assert forall|j: int, i: int|
                    (0 <= j < y && 0 <= i < width) || (j == y && 0 <= i < x)
                        implies framebuffer@.cells[g0.idx(i, j)] == next_alive(g0, i, j)
                        && framebuffer@.buffer[g0.flip_idx(i, j)] == g0.cell_color(
                        next_alive(g0, i, j),
                    ) by {
                    lemma_idx_bounds(i, j, width as int, height as int);
                    lemma_idx_bounds(i, height - 1 - j, width as int, height as int);
                    lemma_idx_bounds(x as int, y as int, width as int, height as int);
                    lemma_idx_bounds(
                        x as int,
                        height - 1 - (y as int),
                        width as int,
                        height as int,
                    );
                    lemma_idx_distinct(width as int, i, j, x as int, y as int);
                    lemma_idx_distinct(
                        width as int,
                        i,
                        height - 1 - j,
                        x as int,
                        height - 1 - (y as int),
                    );
                    assert(before.cells[g0.idx(i, j)] == next_alive(g0, i, j));
                    assert(before.buffer[g0.flip_idx(i, j)] == g0.cell_color(next_alive(g0, i, j)));
                }
            }
            x = x + 1;
        }
        y = y + 1;
    }
}

/// The three cells of a horizontal blinker bar centered at `(cx, cy)`.
pub open spec fn horizontal_bar_at(cx: int, cy: int, i: int, j: int) -> bool {
    j == cy && cx - 1 <= i <= cx + 1
}

/// The three cells of a vertical blinker bar centered at `(cx, cy)`.
pub open spec fn vertical_bar_at(cx: int, cy: int, i: int, j: int) -> bool {
    i == cx && cy - 1 <= j <= cy + 1
}

/// Blinker, first half-period: on a surface whose only live cells form a
/// horizontal bar centered at `(cx, cy)`, far enough from every edge that
/// wraparound cannot reach it, one generation yields exactly the vertical
/// bar with the same center.
#[verifier::rlimit(100)]
pub proof fn lemma_blinker_turns_vertical(fb: FbView, cx: int, cy: int)
    requires
        fb.wf(),
        3 <= cx && cx + 4 <= fb.width,
        3 <= cy && cy + 4 <= fb.height,
        forall|i: int, j: int|
            fb.in_bounds(i, j) ==> (fb.alive_at(i, j) <==> horizontal_bar_at(cx, cy, i, j)),
    ensures
        forall|i: int, j: int|
            fb.in_bounds(i, j) ==> (next_alive(fb, i, j) <==> vertical_bar_at(cx, cy, i, j)),
{
    let w = fb.width as int;
    let h = fb.height as int;
    assert forall|i: int, j: int|
        fb.in_bounds(i, j) implies (next_alive(fb, i, j) <==> vertical_bar_at(
        cx,
        cy,
        i,
        j,
    )) by {
        let xm = wrap_dec(i, w);
        let xp = wrap_inc(i, w);
        let ym = wrap_dec(j, h);
        let yp = wrap_inc(j, h);
        assert(fb.in_bounds(xm, ym) && fb.in_bounds(i, ym) && fb.in_bounds(xp, ym) && fb.in_bounds(
            xm,
            j,
        ) && fb.in_bounds(xp, j) && fb.in_bounds(xm, yp) && fb.in_bounds(i, yp) && fb.in_bounds(
            xp,
            yp,
        ));
        if cx - 2 <= i <= cx + 2 && cy - 1 <= j <= cy + 1 {
            // Near the bar every wrapped step is a plain step.
            assert(xm == i - 1 && xp == i + 1 && ym == j - 1 && yp == j + 1);
            if j == cy {
                if i == cx {
                    assert(neighbor_count(fb, i, j) == 2);
                } else {
                    assert(neighbor_count(fb, i, j) == 1);
                }
            } else {
                if i == cx {
                    assert(neighbor_count(fb, i, j) == 3);
                } else if i == cx - 1 || i == cx + 1 {
                    assert(neighbor_count(fb, i, j) == 2);
                } else {
                    assert(neighbor_count(fb, i, j) == 1);
                }
            }
        } else {
            // Far from the bar all eight neighbors are dead.
            assert(!fb.alive_at(xm, ym) && !fb.alive_at(i, ym) && !fb.alive_at(xp, ym)
                && !fb.alive_at(xm, j) && !fb.alive_at(xp, j) && !fb.alive_at(xm, yp)
                && !fb.alive_at(i, yp) && !fb.alive_at(xp, yp));
            assert(neighbor_count(fb, i, j) == 0);
        }
    }
}

/// Blinker, second half-period: a lone vertical bar centered at
/// `(cx, cy)`, far enough from every edge, turns back into the horizontal
/// bar with the same center.
#[verifier::rlimit(100)]
pub proof fn lemma_blinker_turns_horizontal(fb: FbView, cx: int, cy: int)
    requires
        fb.wf(),
        3 <= cx && cx + 4 <= fb.width,
        3 <= cy && cy + 4 <= fb.height,
        forall|i: int, j: int|
            fb.in_bounds(i, j) ==> (fb.alive_at(i, j) <==> vertical_bar_at(cx, cy, i, j)),
    ensures
        forall|i: int, j: int|
            fb.in_bounds(i, j) ==> (next_alive(fb, i, j) <==> horizontal_bar_at(cx, cy, i, j)),
{
    let w = fb.width as int;
    let h = fb.height as int;
    assert forall|i: int, j: int|
        fb.in_bounds(i, j) implies (next_alive(fb, i, j) <==> horizontal_bar_at(
        cx,
        cy,
        i,
        j,
    )) by {
        let xm = wrap_dec(i, w);
        let xp = wrap_inc(i, w);
        let ym = wrap_dec(j, h);
        let yp = wrap_inc(j, h);
        assert(fb.in_bounds(xm, ym) && fb.in_bounds(i, ym) && fb.in_bounds(xp, ym) && fb.in_bounds(
            xm,
            j,
        ) && fb.in_bounds(xp, j) && fb.in_bounds(xm, yp) && fb.in_bounds(i, yp) && fb.in_bounds(
            xp,
            yp,
        ));
        if cx - 1 <= i <= cx + 1 && cy - 2 <= j <= cy + 2 {
            // Near the bar every wrapped step is a plain step.
            assert(xm == i - 1 && xp == i + 1 && ym == j - 1 && yp == j + 1);
            if i == cx {
                if j == cy {
                    assert(neighbor_count(fb, i, j) == 2);
                } else {
                    assert(neighbor_count(fb, i, j) == 1);
                }
            } else {
                if j == cy {
                    assert(neighbor_count(fb, i, j) == 3);
                } else if j == cy - 1 || j == cy + 1 {
                    assert(neighbor_count(fb, i, j) == 2);
                } else {
                    assert(neighbor_count(fb, i, j) == 1);
                }
            }
        } else {
            // Far from the bar all eight neighbors are dead.
            assert(!fb.alive_at(xm, ym) && !fb.alive_at(i, ym) && !fb.alive_at(xp, ym)
                && !fb.alive_at(xm, j) && !fb.alive_at(xp, j) && !fb.alive_at(xm, yp)
                && !fb.alive_at(i, yp) && !fb.alive_at(xp, yp));
            assert(neighbor_count(fb, i, j) == 0);
        }
    }
}

/// Blinker period two: starting from a lone horizontal bar centered at
/// `(cx, cy)` and applying the generation rule twice — `fb1` holding the
/// first generation and `fb2` the second — the live pattern is back to
/// the original bar.
pub proof fn lemma_blinker_period_two(fb: FbView, fb1: FbView, fb2: FbView, cx: int, cy: int)
    requires
        fb.wf(),
        fb1.wf(),
        fb2.wf(),
        fb1.width == fb.width,
        fb1.height == fb.height,
        fb2.width == fb.width,
        fb2.height == fb.height,
        3 <= cx && cx + 4 <= fb.width,
        3 <= cy && cy + 4 <= fb.height,
        forall|i: int, j: int|
            fb.in_bounds(i, j) ==> (fb.alive_at(i, j) <==> horizontal_bar_at(cx, cy, i, j)),
        forall|i: int, j: int|
            fb.in_bounds(i, j) ==> fb1.alive_at(i, j) == next_alive(fb, i, j),
        forall|i: int, j: int|
            fb.in_bounds(i, j) ==> fb2.alive_at(i, j) == next_alive(fb1, i, j),
    ensures
        forall|i: int, j: int|
            fb.in_bounds(i, j) ==> fb2.alive_at(i, j) == fb.alive_at(i, j),
{
    lemma_blinker_turns_vertical(fb, cx, cy);
    lemma_blinker_turns_horizontal(fb1, cx, cy);
}

/// The five cells of the glider as seeded, its bounding corner at
/// `(gx, gy)`.
pub open spec fn glider_phase_a(gx: int, gy: int, i: int, j: int) -> bool {
    ||| (i == gx + 1 && j == gy)
    ||| (i == gx + 2 && j == gy + 1)
    ||| (i == gx && j == gy + 2)
    ||| (i == gx + 1 && j == gy + 2)
    ||| (i == gx + 2 && j == gy + 2)
}

/// The glider one generation after phase a.
pub open spec fn glider_phase_b(gx: int, gy: int, i: int, j: int) -> bool {
    ||| (i == gx && j == gy + 1)
    ||| (i == gx + 2 && j == gy + 1)
    ||| (i == gx + 1 && j == gy + 2)
    ||| (i == gx + 2 && j == gy + 2)
    ||| (i == gx + 1 && j == gy + 3)
}

/// The glider two generations after phase a.
pub open spec fn glider_phase_c(gx: int, gy: int, i: int, j: int) -> bool {
    ||| (i == gx + 2 && j == gy + 1)
    ||| (i == gx && j == gy + 2)
    ||| (i == gx + 2 && j == gy + 2)
    ||| (i == gx + 1 && j == gy + 3)
    ||| (i == gx + 2 && j == gy + 3)
}

/// The glider three generations after phase a.
pub open spec fn glider_phase_d(gx: int, gy: int, i: int, j: int) -> bool {
    ||| (i == gx + 1 && j == gy + 1)
    ||| (i == gx + 2 && j == gy + 2)
    ||| (i == gx + 3 && j == gy + 2)
    ||| (i == gx + 1 && j == gy + 3)
    ||| (i == gx + 2 && j == gy + 3)
}

/// Glider, first step: a lone phase-a glider, far enough from every edge
/// that wraparound cannot reach it, becomes the phase-b glider.
#[verifier::rlimit(100)]
pub proof fn lemma_glider_a_to_b(fb: FbView, gx: int, gy: int)
    requires
        fb.wf(),
        2 <= gx && gx + 6 <= fb.width,
        2 <= gy && gy + 6 <= fb.height,
        forall|i: int, j: int|
            fb.in_bounds(i, j) ==> (fb.alive_at(i, j) <==> glider_phase_a(gx, gy, i, j)),
    ensures
        forall|i: int, j: int|
            fb.in_bounds(i, j) ==> (next_alive(fb, i, j) <==> glider_phase_b(gx, gy, i, j)),
{
    let w = fb.width as int;
    let h = fb.height as int;
    assert forall|i: int, j: int|
        fb.in_bounds(i, j) implies (next_alive(fb, i, j) <==> glider_phase_b(
        gx,
        gy,
        i,
        j,
    )) by {
        let xm = wrap_dec(i, w);
        let xp = wrap_inc(i, w);
        let ym = wrap_dec(j, h);
        let yp = wrap_inc(j, h);
        assert(fb.in_bounds(xm, ym) && fb.in_bounds(i, ym) && fb.in_bounds(xp, ym) && fb.in_bounds(
            xm,
            j,
        ) && fb.in_bounds(xp, j) && fb.in_bounds(xm, yp) && fb.in_bounds(i, yp) && fb.in_bounds(
            xp,
            yp,
        ));
        if gx - 1 <= i <= gx + 4 && gy - 1 <= j <= gy + 4 {
            // Near the glider every wrapped step is a plain step.
            assert(xm == i - 1 && xp == i + 1 && ym == j - 1 && yp == j + 1);
        } else {
            // Far from the glider all eight neighbors are dead.
            assert(!fb.alive_at(xm, ym) && !fb.alive_at(i, ym) && !fb.alive_at(xp, ym)
                && !fb.alive_at(xm, j) && !fb.alive_at(xp, j) && !fb.alive_at(xm, yp)
                && !fb.alive_at(i, yp) && !fb.alive_at(xp, yp));
            assert(neighbor_count(fb, i, j) == 0);
        }
    }
}

/// Glider, second step: a lone phase-b glider, far from every edge,
/// becomes the phase-c glider.
#[verifier::rlimit(100)]
pub proof fn lemma_glider_b_to_c(fb: FbView, gx: int, gy: int)
    requires
        fb.wf(),
        2 <= gx && gx + 6 <= fb.width,
        2 <= gy && gy + 6 <= fb.height,
        forall|i: int, j: int|
            fb.in_bounds(i, j) ==> (fb.alive_at(i, j) <==> glider_phase_b(gx, gy, i, j)),
    ensures
        forall|i: int, j: int|
            fb.in_bounds(i, j) ==> (next_alive(fb, i, j) <==> glider_phase_c(gx, gy, i, j)),
{
    let w = fb.width as int;
    let h = fb.height as int;
    assert forall|i: int, j: int|
        fb.in_bounds(i, j) implies (next_alive(fb, i, j) <==> glider_phase_c(gx, gy, i, j)) by {
        let xm = wrap_dec(i, w);
        let xp = wrap_inc(i, w);
        let ym = wrap_dec(j, h);
        let yp = wrap_inc(j, h);
        assert(fb.in_bounds(xm, ym) && fb.in_bounds(i, ym) && fb.in_bounds(xp, ym) && fb.in_bounds(
            xm,
            j,
        ) && fb.in_bounds(xp, j) && fb.in_bounds(xm, yp) && fb.in_bounds(i, yp) && fb.in_bounds(
            xp,
            yp,
        ));
        if gx - 1 <= i <= gx + 4 && gy - 1 <= j <= gy + 4 {
            // Near the glider every wrapped step is a plain step.
            assert(xm == i - 1 && xp == i + 1 && ym == j - 1 && yp == j + 1);
        } else {
            // Far from the glider all eight neighbors are dead.
            assert(!fb.alive_at(xm, ym) && !fb.alive_at(i, ym) && !fb.alive_at(xp, ym)
                && !fb.alive_at(xm, j) && !fb.alive_at(xp, j) && !fb.alive_at(xm, yp)
                && !fb.alive_at(i, yp) && !fb.alive_at(xp, yp));
            assert(neighbor_count(fb, i, j) == 0);
        }
    }
}

/// Glider, third step: a lone phase-c glider, far from every edge,
/// becomes the phase-d glider.
#[verifier::rlimit(100)]
pub proof fn lemma_glider_c_to_d(fb: FbView, gx: int, gy: int)
    requires
        fb.wf(),
        2 <= gx && gx + 6 <= fb.width,
        2 <= gy && gy + 6 <= fb.height,
        forall|i: int, j: int|
            fb.in_bounds(i, j) ==> (fb.alive_at(i, j) <==> glider_phase_c(gx, gy, i, j)),
    ensures
        forall|i: int, j: int|
            fb.in_bounds(i, j) ==> (next_alive(fb, i, j) <==> glider_phase_d(gx, gy, i, j)),
{
    let w = fb.width as int;
    let h = fb.height as int;
    assert forall|i: int, j: int|
        fb.in_bounds(i, j) implies (next_alive(fb, i, j) <==> glider_phase_d(gx, gy, i, j)) by {
        let xm = wrap_dec(i, w);
        let xp = wrap_inc(i, w);
        let ym = wrap_dec(j, h);
        let yp = wrap_inc(j, h);
        assert(fb.in_bounds(xm, ym) && fb.in_bounds(i, ym) && fb.in_bounds(xp, ym) && fb.in_bounds(
            xm,
            j,
        ) && fb.in_bounds(xp, j) && fb.in_bounds(xm, yp) && fb.in_bounds(i, yp) && fb.in_bounds(
            xp,
            yp,
        ));
        if gx - 1 <= i <= gx + 4 && gy - 1 <= j <= gy + 4 {
            // Near the glider every wrapped step is a plain step.
            assert(xm == i - 1 && xp == i + 1 && ym == j - 1 && yp == j + 1);
        } else {
            // Far from the glider all eight neighbors are dead.
            assert(!fb.alive_at(xm, ym) && !fb.alive_at(i, ym) && !fb.alive_at(xp, ym)
                && !fb.alive_at(xm, j) && !fb.alive_at(xp, j) && !fb.alive_at(xm, yp)
                && !fb.alive_at(i, yp) && !fb.alive_at(xp, yp));
            assert(neighbor_count(fb, i, j) == 0);
        }
    }
}

/// Glider, fourth step: a lone phase-d glider, far from every edge,
/// becomes the phase-a glider translated by one cell down and right.
#[verifier::rlimit(100)]
pub proof fn lemma_glider_d_to_a(fb: FbView, gx: int, gy: int)
    requires
        fb.wf(),
        2 <= gx && gx + 6 <= fb.width,
        2 <= gy && gy + 6 <= fb.height,
        forall|i: int, j: int|
            fb.in_bounds(i, j) ==> (fb.alive_at(i, j) <==> glider_phase_d(gx, gy, i, j)),
    ensures
        forall|i: int, j: int|
            fb.in_bounds(i, j) ==> (next_alive(fb, i, j) <==> glider_phase_a(gx + 1, gy + 1, i, j)),
{
    let w = fb.width as int;
    let h = fb.height as int;
    assert forall|i: int, j: int|
        fb.in_bounds(i, j) implies (next_alive(fb, i, j) <==> glider_phase_a(gx + 1, gy + 1, i, j)) by {
        let xm = wrap_dec(i, w);
        let xp = wrap_inc(i, w);
        let ym = wrap_dec(j, h);
        let yp = wrap_inc(j, h);
        assert(fb.in_bounds(xm, ym) && fb.in_bounds(i, ym) && fb.in_bounds(xp, ym) && fb.in_bounds(
            xm,
            j,
        ) && fb.in_bounds(xp, j) && fb.in_bounds(xm, yp) && fb.in_bounds(i, yp) && fb.in_bounds(
            xp,
            yp,
        ));
        if gx - 1 <= i <= gx + 4 && gy - 1 <= j <= gy + 4 {
            // Near the glider every wrapped step is a plain step.
            assert(xm == i - 1 && xp == i + 1 && ym == j - 1 && yp == j + 1);
        } else {
            // Far from the glider all eight neighbors are dead.
            assert(!fb.alive_at(xm, ym) && !fb.alive_at(i, ym) && !fb.alive_at(xp, ym)
                && !fb.alive_at(xm, j) && !fb.alive_at(xp, j) && !fb.alive_at(xm, yp)
                && !fb.alive_at(i, yp) && !fb.alive_at(xp, yp));
            assert(neighbor_count(fb, i, j) == 0);
        }
    }
}

/// Glider translation: starting from a lone glider seeded with its
/// corner at `(gx, gy)`, far enough from every edge, and applying the
/// generation rule four times — `fb1` through `fb4` holding the
/// successive generations — the live pattern of `fb4` is exactly the
/// seeded glider translated by `(1, 1)`.  Since the pattern is pinned
/// cell for cell, its five-cell count is preserved as well.
pub proof fn lemma_glider_translates(
    fb: FbView,
    fb1: FbView,
    fb2: FbView,
    fb3: FbView,
    fb4: FbView,
    gx: int,
    gy: int,
)
    requires
        fb.wf(),
        fb1.wf(),
        fb2.wf(),
        fb3.wf(),
        fb4.wf(),
        fb1.width == fb.width && fb1.height == fb.height,
        fb2.width == fb.width && fb2.height == fb.height,
        fb3.width == fb.width && fb3.height == fb.height,
        fb4.width == fb.width && fb4.height == fb.height,
        2 <= gx && gx + 6 <= fb.width,
        2 <= gy && gy + 6 <= fb.height,
        forall|i: int, j: int|
            fb.in_bounds(i, j) ==> (fb.alive_at(i, j) <==> glider_phase_a(gx, gy, i, j)),
        forall|i: int, j: int|
            fb.in_bounds(i, j) ==> fb1.alive_at(i, j) == next_alive(fb, i, j),
        forall|i: int, j: int|
            fb.in_bounds(i, j) ==> fb2.alive_at(i, j) == next_alive(fb1, i, j),
        forall|i: int, j: int|
            fb.in_bounds(i, j) ==> fb3.alive_at(i, j) == next_alive(fb2, i, j),
        forall|i: int, j: int|
            fb.in_bounds(i, j) ==> fb4.alive_at(i, j) == next_alive(fb3, i, j),
    ensures
        forall|i: int, j: int|
            fb.in_bounds(i, j) ==> (fb4.alive_at(i, j) <==> glider_phase_a(gx + 1, gy + 1, i, j)),
{
    lemma_glider_a_to_b(fb, gx, gy);
    lemma_glider_b_to_c(fb1, gx, gy);
    lemma_glider_c_to_d(fb2, gx, gy);
    lemma_glider_d_to_a(fb3, gx, gy);
}

} // verus!
