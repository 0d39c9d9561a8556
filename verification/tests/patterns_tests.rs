use conway_life::framebuffer::Framebuffer;
use conway_life::life::next_generation;
use conway_life::patterns::{
    create_blinker, create_glider, create_pentadecathlon, create_pulsar, render,
};

fn alive_count(fb: &Framebuffer) -> usize {
    let mut count = 0;
    for y in 0..fb.height() {
        for x in 0..fb.width() {
            if fb.is_alive(x, y) {
                count += 1;
            }
        }
    }
    count
}

#[test]
fn render_paints_scene_colors() {
    let mut fb = Framebuffer::new(80, 60);
    render(&mut fb);
    assert_eq!(fb.pixel_at(20, 40), Some(0xFB00FF));
    assert_eq!(fb.pixel_at(0, 0), Some(0x333355));
    assert_eq!(fb.pixel_at(79, 59), Some(0x333355));
    assert_eq!(alive_count(&fb), 0);
    fb.set_cell(1, 1, true);
    assert_eq!(fb.pixel_at(1, 1), Some(0x00FF1F));
    fb.set_cell(1, 1, false);
    assert_eq!(fb.pixel_at(1, 1), Some(0x333355));
}

#[test]
fn render_on_small_surface_skips_annotation_pixel() {
    let mut fb = Framebuffer::new(5, 5);
    render(&mut fb);
    for y in 0..5 {
        for x in 0..5 {
            assert_eq!(fb.pixel_at(x, y), Some(0x333355));
        }
    }
}

#[test]
fn glider_seed_sets_its_five_cells() {
    let mut fb = Framebuffer::new(10, 10);
    create_glider(&mut fb, 2, 2);
    let expected = [(3, 2), (4, 3), (2, 4), (3, 4), (4, 4)];
    for &(x, y) in expected.iter() {
        assert!(fb.is_alive(x, y));
    }
    assert_eq!(alive_count(&fb), 5);
}

#[test]
fn blinker_seed_sets_its_three_cells() {
    let mut fb = Framebuffer::new(10, 10);
    create_blinker(&mut fb, 4, 5);
    assert!(fb.is_alive(4, 5));
    assert!(fb.is_alive(5, 5));
    assert!(fb.is_alive(6, 5));
    assert_eq!(alive_count(&fb), 3);
}

#[test]
fn blinker_seed_clipped_at_the_edge() {
    let mut fb = Framebuffer::new(5, 5);
    create_blinker(&mut fb, 3, 1);
    assert!(fb.is_alive(3, 1));
    assert!(fb.is_alive(4, 1));
    assert_eq!(alive_count(&fb), 2);
}

#[test]
fn pulsar_seed_sets_forty_eight_cells() {
    let mut fb = Framebuffer::new(20, 20);
    create_pulsar(&mut fb, 3, 3);
    assert_eq!(alive_count(&fb), 48);
    // Spot checks from each arm of the pattern.
    assert!(fb.is_alive(5, 3));
    assert!(fb.is_alive(3, 5));
    assert!(fb.is_alive(15, 5));
    assert!(fb.is_alive(13, 15));
    assert!(!fb.is_alive(4, 4));
}

#[test]
fn pulsar_oscillates_with_period_three() {
    let mut fb = Framebuffer::new(17, 17);
    create_pulsar(&mut fb, 2, 2);
    let mut start = Vec::new();
    for y in 0..17 {
        for x in 0..17 {
            if fb.is_alive(x, y) {
                start.push((x, y));
            }
        }
    }
    next_generation(&mut fb);
    next_generation(&mut fb);
    next_generation(&mut fb);
    let mut back = Vec::new();
    for y in 0..17 {
        for x in 0..17 {
            if fb.is_alive(x, y) {
                back.push((x, y));
            }
        }
    }
    assert_eq!(start, back);
}

#[test]
fn pentadecathlon_seed_sets_its_twelve_cells() {
    let mut fb = Framebuffer::new(20, 20);
    create_pentadecathlon(&mut fb, 5, 3);
    // Eight cells in the bar at row 3.
    for x in 5..13 {
        assert!(fb.is_alive(x, 3));
    }
    // Single cells above and below the third and sixth bar cells.
    assert!(fb.is_alive(7, 2));
    assert!(fb.is_alive(10, 2));
    assert!(fb.is_alive(7, 4));
    assert!(fb.is_alive(10, 4));
    assert_eq!(alive_count(&fb), 12);
}

#[test]
fn pentadecathlon_seed_clipped_at_top_row() {
    let mut fb = Framebuffer::new(20, 20);
    create_pentadecathlon(&mut fb, 5, 0);
    for x in 5..13 {
        assert!(fb.is_alive(x, 0));
    }
    // The row above the bar lies outside the grid: silently skipped.
    assert!(fb.is_alive(7, 1));
    assert!(fb.is_alive(10, 1));
    assert_eq!(alive_count(&fb), 10);
}

