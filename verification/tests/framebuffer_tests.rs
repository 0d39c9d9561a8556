use conway_life::framebuffer::Framebuffer;

#[test]
fn new_surface_is_black_and_dead() {
    let fb = Framebuffer::new(4, 3);
    assert_eq!(fb.width(), 4);
    assert_eq!(fb.height(), 3);
    for y in 0..3 {
        for x in 0..4 {
            assert!(!fb.is_alive(x, y));
            assert_eq!(fb.pixel_at(x, y), Some(0x000000));
        }
    }
}

#[test]
fn set_cell_marks_cell_alive_and_paints_draw_color() {
    let mut fb = Framebuffer::new(10, 10);
    fb.set_current_color(0x00FF1F);
    fb.set_cell(3, 4, true);
    assert!(fb.is_alive(3, 4));
    assert_eq!(fb.pixel_at(3, 4), Some(0x00FF1F));
    // The flipped slot in the raw buffer is the one that was painted.
    assert_eq!(fb.buffer()[(10 - 1 - 4) * 10 + 3], 0x00FF1F);
    fb.set_cell(3, 4, false);
    assert!(!fb.is_alive(3, 4));
    assert_eq!(fb.pixel_at(3, 4), Some(0x000000));
}

#[test]
fn default_draw_color_is_white() {
    let mut fb = Framebuffer::new(3, 3);
    fb.set_cell(1, 1, true);
    assert_eq!(fb.pixel_at(1, 1), Some(0xFFFFFF));
}

#[test]
fn is_alive_out_of_range_is_false() {
    let mut fb = Framebuffer::new(4, 4);
    fb.set_cell(3, 3, true);
    assert!(fb.is_alive(3, 3));
    assert!(!fb.is_alive(4, 0));
    assert!(!fb.is_alive(0, 4));
    assert!(!fb.is_alive(100, 100));
}

#[test]
fn set_cell_out_of_range_is_a_noop() {
    let mut fb = Framebuffer::new(4, 4);
    let before: Vec<u32> = fb.buffer().clone();
    fb.set_cell(4, 0, true);
    fb.set_cell(0, 4, true);
    fb.set_cell(9, 9, true);
    assert_eq!(fb.buffer(), &before);
    for y in 0..4 {
        for x in 0..4 {
            assert!(!fb.is_alive(x, y));
        }
    }
}

#[test]
fn point_writes_raw_pixel_at_flipped_row() {
    let mut fb = Framebuffer::new(4, 3);
    fb.point(1, 0, 0x42);
    assert_eq!(fb.pixel_at(1, 0), Some(0x42));
    assert_eq!(fb.buffer()[(3 - 1 - 0) * 4 + 1], 0x42);
    assert!(!fb.is_alive(1, 0));
    let before: Vec<u32> = fb.buffer().clone();
    fb.point(4, 0, 0x99);
    assert_eq!(fb.buffer(), &before);
}

#[test]
fn clear_resets_every_cell_and_pixel() {
    let mut fb = Framebuffer::new(5, 5);
    fb.set_background_color(0x123456);
    fb.set_cell(1, 2, true);
    fb.set_cell(4, 4, true);
    fb.point(0, 0, 0xABCDEF);
    fb.clear();
    for y in 0..5 {
        for x in 0..5 {
            assert!(!fb.is_alive(x, y));
            assert_eq!(fb.pixel_at(x, y), Some(0x123456));
        }
    }
}

#[test]
fn setting_a_dead_cell_dead_changes_nothing() {
    let mut fb = Framebuffer::new(5, 5);
    fb.set_background_color(0x101010);
    fb.clear();
    fb.set_cell(3, 3, true);
    assert!(!fb.is_alive(2, 2));
    let before: Vec<u32> = fb.buffer().clone();
    fb.set_cell(2, 2, false);
    assert_eq!(fb.buffer(), &before);
    assert!(!fb.is_alive(2, 2));
    assert!(fb.is_alive(3, 3));
}

#[test]
fn background_color_applies_on_following_operations_only() {
    let mut fb = Framebuffer::new(3, 3);
    fb.set_background_color(0x222222);
    // Existing pixels keep their old color until cleared or rewritten.
    assert_eq!(fb.pixel_at(0, 0), Some(0x000000));
    fb.set_cell(0, 0, false);
    assert_eq!(fb.pixel_at(0, 0), Some(0x222222));
    fb.clear();
    assert_eq!(fb.pixel_at(2, 2), Some(0x222222));
}

#[test]
fn line_color_setter_keeps_surface_unchanged() {
    let mut fb = Framebuffer::new(3, 3);
    let before: Vec<u32> = fb.buffer().clone();
    fb.set_line_color(0x777777);
    assert_eq!(fb.buffer(), &before);
    fb.set_cell(1, 1, true);
    // The draw color, not the line color, paints cells.
    assert_eq!(fb.pixel_at(1, 1), Some(0xFFFFFF));
}
