use conway_life::framebuffer::Framebuffer;
use conway_life::life::next_generation;
use conway_life::patterns::{create_blinker, create_glider};

fn alive_cells(fb: &Framebuffer) -> Vec<(usize, usize)> {
    let mut cells = Vec::new();
    for y in 0..fb.height() {
        for x in 0..fb.width() {
            if fb.is_alive(x, y) {
                cells.push((x, y));
            }
        }
    }
    cells
}

#[test]
fn isolated_cell_dies() {
    let mut fb = Framebuffer::new(6, 6);
    fb.set_cell(3, 3, true);
    next_generation(&mut fb);
    assert_eq!(alive_cells(&fb), vec![]);
}

#[test]
fn dead_grid_stays_dead() {
    let mut fb = Framebuffer::new(5, 4);
    next_generation(&mut fb);
    assert_eq!(alive_cells(&fb), vec![]);
}

#[test]
fn block_is_a_still_life() {
    let mut fb = Framebuffer::new(6, 6);
    fb.set_cell(2, 2, true);
    fb.set_cell(3, 2, true);
    fb.set_cell(2, 3, true);
    fb.set_cell(3, 3, true);
    next_generation(&mut fb);
    assert_eq!(alive_cells(&fb), vec![(2, 2), (3, 2), (2, 3), (3, 3)]);
}

#[test]
fn blinker_oscillates_with_period_two() {
    let mut fb = Framebuffer::new(8, 8);
    create_blinker(&mut fb, 2, 3);
    assert_eq!(alive_cells(&fb), vec![(2, 3), (3, 3), (4, 3)]);
    next_generation(&mut fb);
    assert_eq!(alive_cells(&fb), vec![(3, 2), (3, 3), (3, 4)]);
    next_generation(&mut fb);
    assert_eq!(alive_cells(&fb), vec![(2, 3), (3, 3), (4, 3)]);
}

#[test]
fn generation_repaints_pixels_to_match_cells() {
    let mut fb = Framebuffer::new(8, 8);
    fb.set_background_color(0x111111);
    fb.clear();
    fb.set_current_color(0x00FF00);
    create_blinker(&mut fb, 2, 3);
    next_generation(&mut fb);
    for y in 0..8 {
        for x in 0..8 {
            let expected = if fb.is_alive(x, y) { 0x00FF00 } else { 0x111111 };
            assert_eq!(fb.pixel_at(x, y), Some(expected));
        }
    }
}

#[test]
fn glider_translates_by_one_cell_every_four_generations() {
    let mut fb = Framebuffer::new(12, 12);
    create_glider(&mut fb, 3, 3);
    let start = alive_cells(&fb);
    assert_eq!(start.len(), 5);
    for _ in 0..4 {
        next_generation(&mut fb);
    }
    let moved: Vec<(usize, usize)> = start.iter().map(|&(x, y)| (x + 1, y + 1)).collect();
    let mut got = alive_cells(&fb);
    let mut want = moved.clone();
    got.sort();
    want.sort();
    assert_eq!(got, want);
    for _ in 0..4 {
        next_generation(&mut fb);
    }
    let mut got2 = alive_cells(&fb);
    let mut want2: Vec<(usize, usize)> = start.iter().map(|&(x, y)| (x + 2, y + 2)).collect();
    got2.sort();
    want2.sort();
    assert_eq!(got2, want2);
    assert_eq!(got2.len(), 5);
}

#[test]
fn toroidal_wraparound_joins_first_and_last_column() {
    let mut fb = Framebuffer::new(6, 6);
    // A blinker lying across the vertical seam of the torus.
    fb.set_cell(4, 2, true);
    fb.set_cell(5, 2, true);
    fb.set_cell(0, 2, true);
    next_generation(&mut fb);
    assert_eq!(alive_cells(&fb), vec![(5, 1), (5, 2), (5, 3)]);
    next_generation(&mut fb);
    // Row-major order: the wrapped bar is back, listed left to right.
    assert_eq!(alive_cells(&fb), vec![(0, 2), (4, 2), (5, 2)]);
}
