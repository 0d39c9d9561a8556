use conway_life::bmp::decode_bmp_pixels;
use conway_life::framebuffer::Framebuffer;
use conway_life::patterns::render;

#[test]
fn bmp_header_bytes_are_exact() {
    let fb = Framebuffer::new(3, 2);
    let bytes = fb.render_buffer();
    // Row size: 3 pixels * 3 bytes = 9, padded to 12; two rows of data.
    assert_eq!(bytes.len(), 54 + 12 * 2);
    assert_eq!(&bytes[0..2], &[0x42, 0x4D]);
    // File size 78, little endian.
    assert_eq!(&bytes[2..6], &[78, 0, 0, 0]);
    assert_eq!(&bytes[6..10], &[0, 0, 0, 0]);
    // Pixel data offset 54, info header size 40.
    assert_eq!(&bytes[10..14], &[54, 0, 0, 0]);
    assert_eq!(&bytes[14..18], &[40, 0, 0, 0]);
    // Width 3, height 2.
    assert_eq!(&bytes[18..22], &[3, 0, 0, 0]);
    assert_eq!(&bytes[22..26], &[2, 0, 0, 0]);
    // One plane, 24 bits per pixel, no compression, 24 data bytes.
    assert_eq!(&bytes[26..28], &[1, 0]);
    assert_eq!(&bytes[28..30], &[24, 0]);
    assert_eq!(&bytes[30..34], &[0, 0, 0, 0]);
    assert_eq!(&bytes[34..38], &[24, 0, 0, 0]);
    assert_eq!(&bytes[38..54], &[0u8; 16]);
}

#[test]
fn bmp_pixel_bytes_are_blue_green_red_with_padding() {
    let mut fb = Framebuffer::new(2, 2);
    fb.set_current_color(0xAABBCC);
    // Logical (0, 0) lands in stored row 1 because of the vertical flip.
    fb.set_cell(0, 0, true);
    let bytes = fb.render_buffer();
    // Row size: 2 pixels * 3 bytes = 6, padded to 8.
    assert_eq!(bytes.len(), 54 + 8 * 2);
    let base = 54 + 8;
    assert_eq!(bytes[base], 0xCC);
    assert_eq!(bytes[base + 1], 0xBB);
    assert_eq!(bytes[base + 2], 0xAA);
    // The other three pixels are still black.
    assert_eq!(&bytes[54..60], &[0, 0, 0, 0, 0, 0]);
    assert_eq!(&bytes[base + 3..base + 6], &[0, 0, 0]);
    // Row padding bytes are zero.
    assert_eq!(&bytes[60..62], &[0, 0]);
    assert_eq!(&bytes[base + 6..base + 8], &[0, 0]);
}

#[test]
fn decode_rebuilds_packed_colors() {
    let mut bytes = vec![0u8; 54 + 4];
    // One 1x1 image: row size 4; blue 1, green 2, red 3.
    bytes[54] = 1;
    bytes[55] = 2;
    bytes[56] = 3;
    let pixels = decode_bmp_pixels(&bytes, 1, 1);
    assert_eq!(pixels, vec![0x030201]);
}

#[test]
fn bmp_round_trip_reproduces_every_pixel() {
    let mut fb = Framebuffer::new(4, 3);
    render(&mut fb);
    fb.set_current_color(0x00FF1F);
    fb.set_cell(0, 0, true);
    fb.set_cell(3, 2, true);
    fb.point(1, 1, 0xFFAA5511);
    let bytes = fb.render_buffer();
    let decoded = decode_bmp_pixels(&bytes, 4, 3);
    assert_eq!(decoded.len(), 12);
    for i in 0..12 {
        // The unused top byte is dropped; the 24 color bits survive.
        assert_eq!(decoded[i], fb.buffer()[i] & 0xFFFFFF);
    }
}
