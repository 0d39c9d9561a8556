//! Serialization of a pixel buffer as the bytes of a 24-bit bitmap file,
//! and the matching pixel decoder.
//!
//! The encoder takes the rows exactly as the surface stores them (row 0
//! first, which is the bottom of the displayed image, already in the
//! bottom-to-top order the format wants) and emits a 14-byte file header,
//! a 40-byte info header, and blue-green-red byte triples with each row
//! padded to a multiple of four bytes.  Writing the bytes to disk is left
//! to the caller.

use vstd::prelude::*;

use crate::framebuffer::{lemma_idx_bounds, Framebuffer};

verus! {

/// Bytes per stored pixel row: three per pixel, padded up to a multiple
/// of four.
pub open spec fn bmp_row_size(width: int) -> int {
    ((3 * width + 3) / 4) * 4
}

/// Least significant byte of a little-endian 32-bit value.
pub open spec fn le_byte0(v: u32) -> u8 {
    (v & 0xFF) as u8
}

pub open spec fn le_byte1(v: u32) -> u8 {
    ((v >> 8u32) & 0xFF) as u8
}

pub open spec fn le_byte2(v: u32) -> u8 {
    ((v >> 16u32) & 0xFF) as u8
}

pub open spec fn le_byte3(v: u32) -> u8 {
    ((v >> 24u32) & 0xFF) as u8
}

/// A packed color rebuilt from its red, green and blue bytes.
pub open spec fn rgb_u32(red: u8, green: u8, blue: u8) -> u32 {
    ((red as u32) << 16u32) | ((green as u32) << 8u32) | (blue as u32)
}

/// Offset of the first byte (blue) of pixel `(col, row)` in the encoded
/// file.
pub open spec fn pix_off(width: int, row: int, col: int) -> int {
    54 + row * bmp_row_size(width) + 3 * col
}

/// Offset of padding byte `k` (with `3 * width <= k < bmp_row_size`) of
/// row `row` in the encoded file.
pub open spec fn pad_off(width: int, row: int, k: int) -> int {
    54 + row * bmp_row_size(width) + k
}

/// Byte `i` of the 54-byte header: the `BM` magic, little-endian file
/// size, pixel data offset 54, info header size 40, width, height, one
/// color plane, 24 bits per pixel, no compression, and the pixel data
/// size; the remaining fields are zero.
pub open spec fn bmp_header_byte(width: int, height: int, i: int) -> u8 {
    let file_size = (54 + bmp_row_size(width) * height) as u32;
    let data_size = (bmp_row_size(width) * height) as u32;
    if i == 0 {
        0x42u8
    } else if i == 1 {
        0x4Du8
    } else if i == 2 {
        le_byte0(file_size)
    } else if i == 3 {
        le_byte1(file_size)
    } else if i == 4 {
        le_byte2(file_size)
    } else if i == 5 {
        le_byte3(file_size)
    } else if i == 10 {
        54u8
    } else if i == 14 {
        40u8
    } else if i == 18 {
        le_byte0(width as u32)
    } else if i == 19 {
        le_byte1(width as u32)
    } else if i == 20 {
        le_byte2(width as u32)
    } else if i == 21 {
        le_byte3(width as u32)
    } else if i == 22 {
        le_byte0(height as u32)
    } else if i == 23 {
        le_byte1(height as u32)
    } else if i == 24 {
        le_byte2(height as u32)
    } else if i == 25 {
        le_byte3(height as u32)
    } else if i == 26 {
        1u8
    } else if i == 28 {
        24u8
    } else if i == 34 {
        le_byte0(data_size)
    } else if i == 35 {
        le_byte1(data_size)
    } else if i == 36 {
        le_byte2(data_size)
    } else if i == 37 {
        le_byte3(data_size)
    } else {
        0u8
    }
}

/// A row offset plus an in-row offset stays below the next row.
proof fn lemma_off_mono(rs: int, r: int, t: int, row: int)
    by (nonlinear_arith)
    requires
        0 <= t < rs,
        0 <= r < row,
    ensures
        r * rs + t < row * rs,
        r * rs + t < rs * row,
{
}

/// Appends the four little-endian bytes of `v`.
fn push_u32_le(out: &mut Vec<u8>, v: u32)
    ensures
        final(out)@.len() == old(out)@.len() + 4,
        forall|i: int| 0 <= i < old(out)@.len() ==> final(out)@[i] == old(out)@[i],
        final(out)@[old(out)@.len() as int] == le_byte0(v),
        final(out)@[old(out)@.len() as int + 1] == le_byte1(v),
        final(out)@[old(out)@.len() as int + 2] == le_byte2(v),
        final(out)@[old(out)@.len() as int + 3] == le_byte3(v),
{
    out.push((v & 0xFF) as u8);
    out.push(((v >> 8u32) & 0xFF) as u8);
    out.push(((v >> 16u32) & 0xFF) as u8);
    out.push(((v >> 24u32) & 0xFF) as u8);
}

/// Encodes a `width * height` buffer of packed colors (rows already in
/// stored, bottom-to-top order) as a complete 24-bit bitmap file: 54
/// header bytes, then blue-green-red triples row by row, each row padded
/// with zero bytes to a multiple of four.  The unused top byte of each
/// color is dropped.
pub fn encode_bmp(pixels: &Vec<u32>, width: usize, height: usize) -> (r: Vec<u8>)
    requires
        pixels@.len() == width * height,
        width <= 0x7FFFFFFF,
        height <= 0x7FFFFFFF,
        3 * width + 3 <= usize::MAX,
        54 + bmp_row_size(width as int) * height <= u32::MAX,
    ensures
        r@.len() == 54 + bmp_row_size(width as int) * height,
        forall|i: int| 0 <= i < 54 ==> r@[i] == bmp_header_byte(width as int, height as int, i),
        forall|row: int, col: int|
            0 <= row < height && 0 <= col < width ==> r@[pix_off(width as int, row, col)]
                == le_byte0(pixels@[row * width + col]) && r@[pix_off(width as int, row, col) + 1]
                == le_byte1(pixels@[row * width + col]) && r@[pix_off(width as int, row, col) + 2]
                == le_byte2(pixels@[row * width + col]),
        forall|row: int, k: int|
            0 <= row < height && 3 * width <= k < bmp_row_size(width as int) ==> r@[pad_off(
                width as int,
                row,
                k,
            )] == 0u8,
{
    let row_size: usize = ((3 * width + 3) / 4) * 4;
    assert(row_size == bmp_row_size(width as int));
    assert(3 * width <= row_size <= 3 * width + 3);
    proof {
        broadcast use vstd::std_specs::vec::group_vec_axioms;

        assert(pixels.len() <= usize::MAX);
    }
    let file_size: usize = 54 + row_size * height;
    let data_size: usize = row_size * height;
    let mut out: Vec<u8> = Vec::new();
    out.push(0x42);
    out.push(0x4D);
    push_u32_le(&mut out, file_size as u32);
    out.push(0);
    out.push(0);
    out.push(0);
    out.push(0);
    out.push(54);
    out.push(0);
    out.push(0);
    out.push(0);
    out.push(40);
    out.push(0);
    out.push(0);
    out.push(0);
    push_u32_le(&mut out, width as u32);
    push_u32_le(&mut out, height as u32);
    out.push(1);
    out.push(0);
    out.push(24);
    out.push(0);
    out.push(0);
    out.push(0);
    out.push(0);
    out.push(0);
    push_u32_le(&mut out, data_size as u32);
    let mut z: usize = 0;
    while z < 16
        invariant
            out@.len() == 38 + z,
            z <= 16,
            forall|i: int| 38 <= i < 38 + z ==> out@[i] == 0u8,
            forall|i: int|
                0 <= i < 38 ==> out@[i] == bmp_header_byte(width as int, height as int, i),
        decreases 16 - z,
    {
        out.push(0);
        z = z + 1;
    }
    assert(out@.len() == 54);
    assert forall|i: int|
        0 <= i < 54 implies out@[i] == bmp_header_byte(width as int, height as int, i) by {
        assert((54 + bmp_row_size(width as int) * height) as u32 == file_size as u32);
        assert((bmp_row_size(width as int) * height) as u32 == data_size as u32);
    }
    let ghost header = out@;
    let mut row: usize = 0;
    while row < height
        invariant
            pixels@.len() == width * height,
            pixels@.len() <= usize::MAX,
            width <= 0x7FFFFFFF,
            height <= 0x7FFFFFFF,
            3 * width <= row_size <= 3 * width + 3,
            row_size == bmp_row_size(width as int),
            54 + row_size * height <= u32::MAX,
            row <= height,
            out@.len() == 54 + row * row_size,
            forall|i: int| 0 <= i < 54 ==> out@[i] == header[i],
            forall|r2: int, col: int|
                0 <= r2 < row && 0 <= col < width ==> out@[pix_off(width as int, r2, col)]
                    == le_byte0(pixels@[r2 * width + col]) && out@[pix_off(width as int, r2, col)
                    + 1] == le_byte1(pixels@[r2 * width + col]) && out@[pix_off(
                    width as int,
                    r2,
                    col,
                ) + 2] == le_byte2(pixels@[r2 * width + col]),
            forall|r2: int, k: int|
                0 <= r2 < row && 3 * width <= k < row_size ==> out@[pad_off(width as int, r2, k)]
                    == 0u8,
        decreases height - row,
    {
        let mut col: usize = 0;
        while col < width
            invariant
                pixels@.len() == width * height,
                pixels@.len() <= usize::MAX,
                width <= 0x7FFFFFFF,
                height <= 0x7FFFFFFF,
                3 * width <= row_size <= 3 * width + 3,
                row_size == bmp_row_size(width as int),
                54 + row_size * height <= u32::MAX,
                row < height,
                col <= width,
                out@.len() == 54 + row * row_size + 3 * col,
                forall|i: int| 0 <= i < 54 ==> out@[i] == header[i],
                forall|r2: int, c2: int|
                    0 <= r2 < row && 0 <= c2 < width ==> out@[pix_off(width as int, r2, c2)]
                        == le_byte0(pixels@[r2 * width + c2]) && out@[pix_off(width as int, r2, c2)
                        + 1] == le_byte1(pixels@[r2 * width + c2]) && out@[pix_off(
                        width as int,
                        r2,
                        c2,
                    ) + 2] == le_byte2(pixels@[r2 * width + c2]),
                forall|r2: int, k: int|
                    0 <= r2 < row && 3 * width <= k < row_size ==> out@[pad_off(width as int, r2, k)]
                        == 0u8,
                forall|c2: int|
                    0 <= c2 < col ==> out@[pix_off(width as int, row as int, c2)] == le_byte0(
                        pixels@[row * width + c2],
                    ) && out@[pix_off(width as int, row as int, c2) + 1] == le_byte1(
                        pixels@[row * width + c2],
                    ) && out@[pix_off(width as int, row as int, c2) + 2] == le_byte2(
                        pixels@[row * width + c2],
                    ),
            decreases width - col,
        {
            proof {
                lemma_idx_bounds(col as int, row as int, width as int, height as int);
                lemma_off_mono(row_size as int, row as int, 3 * col, height as int);
            }
            let c = pixels[row * width + col];
            out.push((c & 0xFF) as u8);
            out.push(((c >> 8u32) & 0xFF) as u8);
            out.push(((c >> 16u32) & 0xFF) as u8);
            proof {
                assert forall|r2: int, t: int|
                    0 <= r2 < row && 0 <= t < row_size implies #[trigger] (r2 * row_size + t) < row
                    * row_size by {
                    lemma_off_mono(row_size as int, r2, t, row as int);
                }
                assert forall|r2: int, c2: int|
                    0 <= r2 < row && 0 <= c2 < width implies pix_off(width as int, r2, c2) + 2 < 54
                    + row * row_size by {
                    lemma_off_mono(row_size as int, r2, 3 * c2 + 2, row as int);
                }
                assert forall|r2: int, k: int|
                    0 <= r2 < row && 3 * width <= k < row_size implies pad_off(width as int, r2, k)
                    < 54 + row * row_size by {
                    lemma_off_mono(row_size as int, r2, k, row as int);
                }
            }
            col = col + 1;
        }
        let mut k: usize = 3 * width;
        while k < row_size
            invariant
                pixels@.len() == width * height,
                pixels@.len() <= usize::MAX,
                width <= 0x7FFFFFFF,
                height <= 0x7FFFFFFF,
                3 * width <= row_size <= 3 * width + 3,
                row_size == bmp_row_size(width as int),
                54 + row_size * height <= u32::MAX,
                row < height,
                3 * width <= k <= row_size,
                out@.len() == 54 + row * row_size + k,
                forall|i: int| 0 <= i < 54 ==> out@[i] == header[i],
                forall|r2: int, c2: int|
                    0 <= r2 < row && 0 <= c2 < width ==> out@[pix_off(width as int, r2, c2)]
                        == le_byte0(pixels@[r2 * width + c2]) && out@[pix_off(width as int, r2, c2)
                        + 1] == le_byte1(pixels@[r2 * width + c2]) && out@[pix_off(
                        width as int,
                        r2,
                        c2,
                    ) + 2] == le_byte2(pixels@[r2 * width + c2]),
                forall|r2: int, k2: int|
                    0 <= r2 < row && 3 * width <= k2 < row_size ==> out@[pad_off(
                        width as int,
                        r2,
                        k2,
                    )] == 0u8,
                forall|c2: int|
                    0 <= c2 < width ==> out@[pix_off(width as int, row as int, c2)] == le_byte0(
                        pixels@[row * width + c2],
                    ) && out@[pix_off(width as int, row as int, c2) + 1] == le_byte1(
                        pixels@[row * width + c2],
                    ) && out@[pix_off(width as int, row as int, c2) + 2] == le_byte2(
                        pixels@[row * width + c2],
                    ),
                forall|k2: int|
                    3 * width <= k2 < k ==> out@[pad_off(width as int, row as int, k2)] == 0u8,
            decreases row_size - k,
        {
            out.push(0);
            proof {
                assert forall|r2: int, t: int|
                    0 <= r2 < row && 0 <= t < row_size implies #[trigger] (r2 * row_size + t) < row
                    * row_size by {
                    lemma_off_mono(row_size as int, r2, t, row as int);
                }
                assert forall|r2: int, c2: int|
                    0 <= r2 < row && 0 <= c2 < width implies pix_off(width as int, r2, c2) + 2 < 54
                    + row * row_size by {
                    lemma_off_mono(row_size as int, r2, 3 * c2 + 2, row as int);
                }
                assert forall|r2: int, k2: int|
                    0 <= r2 < row && 3 * width <= k2 < row_size implies pad_off(
                        width as int,
                        r2,
                        k2,
                    ) < 54 + row * row_size by {
                    lemma_off_mono(row_size as int, r2, k2, row as int);
                }
            }
            k = k + 1;
        }
        proof {
            assert((row + 1) * row_size == row * row_size + row_size) by (nonlinear_arith);
        }
        row = row + 1;
    }
    proof {
        assert forall|r2: int, t: int|
            0 <= r2 < height && 0 <= t < row_size implies #[trigger] (r2 * row_size + t) < height
            * row_size && r2 * row_size + t < row_size * height by {
            lemma_off_mono(row_size as int, r2, t, height as int);
        }
        assert(height * row_size == row_size * height) by (nonlinear_arith);
    }
    out
}

/// Decodes the blue-green-red pixel triples of a bitmap file encoded as
/// [`encode_bmp`] lays them out, back into packed colors in stored row
/// order.  The top byte of every decoded color is zero.
pub fn decode_bmp_pixels(bytes: &Vec<u8>, width: usize, height: usize) -> (r: Vec<u32>)
    requires
        3 * width + 3 <= usize::MAX,
        width * height <= usize::MAX,
        bytes@.len() == 54 + bmp_row_size(width as int) * height,
    ensures
        r@.len() == width * height,
        forall|row: int, col: int|
            0 <= row < height && 0 <= col < width ==> r@[row * width + col] == rgb_u32(
                bytes@[pix_off(width as int, row, col) + 2],
                bytes@[pix_off(width as int, row, col) + 1],
                bytes@[pix_off(width as int, row, col)],
            ),
{
    let row_size: usize = ((3 * width + 3) / 4) * 4;
    assert(row_size == bmp_row_size(width as int));
    assert(3 * width <= row_size <= 3 * width + 3);
    proof {
        broadcast use vstd::std_specs::vec::group_vec_axioms;

        assert(bytes.len() <= usize::MAX);
    }
    let mut out: Vec<u32> = Vec::new();
    let mut row: usize = 0;
    while row < height
        invariant
            bytes@.len() == 54 + bmp_row_size(width as int) * height,
            bytes@.len() <= usize::MAX,
            3 * width <= row_size <= 3 * width + 3,
            row_size == bmp_row_size(width as int),
            row <= height,
            out@.len() == row * width,
            forall|r2: int, c2: int|
                0 <= r2 < row && 0 <= c2 < width ==> out@[r2 * width + c2] == rgb_u32(
                    bytes@[pix_off(width as int, r2, c2) + 2],
                    bytes@[pix_off(width as int, r2, c2) + 1],
                    bytes@[pix_off(width as int, r2, c2)],
                ),
        decreases height - row,
    {
        let mut col: usize = 0;
        while col < width
            invariant
                bytes@.len() == 54 + bmp_row_size(width as int) * height,
                bytes@.len() <= usize::MAX,
                3 * width <= row_size <= 3 * width + 3,
                row_size == bmp_row_size(width as int),
                row < height,
                col <= width,
                out@.len() == row * width + col,
                forall|r2: int, c2: int|
                    0 <= r2 < row && 0 <= c2 < width ==> out@[r2 * width + c2] == rgb_u32(
                        bytes@[pix_off(width as int, r2, c2) + 2],
                        bytes@[pix_off(width as int, r2, c2) + 1],
                        bytes@[pix_off(width as int, r2, c2)],
                    ),
                forall|c2: int|
                    0 <= c2 < col ==> out@[row * width + c2] == rgb_u32(
                        bytes@[pix_off(width as int, row as int, c2) + 2],
                        bytes@[pix_off(width as int, row as int, c2) + 1],
                        bytes@[pix_off(width as int, row as int, c2)],
                    ),
            decreases width - col,
        {
            proof {
                lemma_off_mono(row_size as int, row as int, 3 * col + 2, height as int);
            }
            let base: usize = 54 + row * row_size + 3 * col;
            let blue = bytes[base];
            let green = bytes[base + 1];
            let red = bytes[base + 2];
            out.push(((red as u32) << 16u32) | ((green as u32) << 8u32) | (blue as u32));
            proof {
                assert forall|r2: int, t: int|
                    0 <= r2 < row && 0 <= t < width implies #[trigger] (r2 * width + t) < row
                    * width by {
                    lemma_off_mono(width as int, r2, t, row as int);
                }
            }
            col = col + 1;
        }
        proof {
            assert((row + 1) * width == row * width + width) by (nonlinear_arith);
        }
        row = row + 1;
    }
    proof {
        assert(height * width == width * height) by (nonlinear_arith);
    }
    out
}

impl Framebuffer {
    /// The current pixel buffer serialized as a complete 24-bit bitmap
    /// file, rows exactly as stored (bottom-to-top, so no further flip is
    /// needed); the caller writes the bytes to wherever they should go.
    pub fn render_buffer(&self) -> (r: Vec<u8>)
        requires
            self@.wf(),
            self@.width <= 0x7FFFFFFF,
            self@.height <= 0x7FFFFFFF,
            3 * self@.width + 3 <= usize::MAX,
            54 + bmp_row_size(self@.width as int) * self@.height <= u32::MAX,
        ensures
            r@.len() == 54 + bmp_row_size(self@.width as int) * self@.height,
            forall|i: int|
                0 <= i < 54 ==> r@[i] == bmp_header_byte(
                    self@.width as int,
                    self@.height as int,
                    i,
                ),
            forall|row: int, col: int|
                0 <= row < self@.height && 0 <= col < self@.width ==> r@[pix_off(
                    self@.width as int,
                    row,
                    col,
                )] == le_byte0(self@.buffer[row * self@.width + col]) && r@[pix_off(
                    self@.width as int,
                    row,
                    col,
                ) + 1] == le_byte1(self@.buffer[row * self@.width + col]) && r@[pix_off(
                    self@.width as int,
                    row,
                    col,
                ) + 2] == le_byte2(self@.buffer[row * self@.width + col]),
            forall|row: int, k: int|
                0 <= row < self@.height && 3 * self@.width <= k < bmp_row_size(self@.width as int)
                    ==> r@[pad_off(self@.width as int, row, k)] == 0u8,
    {
        encode_bmp(self.buffer(), self.width(), self.height())
    }
}

/// One packed color survives the encode-decode byte round trip with its
/// unused top byte cleared.
pub proof fn lemma_round_trip_byte(c: u32)
    ensures
        rgb_u32(le_byte2(c), le_byte1(c), le_byte0(c)) == c & 0xFFFFFF,
{
    assert(((((c >> 16u32) & 0xFF) as u8 as u32) << 16u32) | ((((c >> 8u32) & 0xFF) as u8 as u32)
        << 8u32) | (((c & 0xFF) as u8) as u32) == c & 0xFFFFFF) by (bit_vector);
}

/// Round trip: decoding the pixel bytes of an encoded buffer reproduces
/// every color row for row, with only the unused top byte cleared.
pub proof fn lemma_bmp_round_trip(
    pixels: Seq<u32>,
    bytes: Seq<u8>,
    decoded: Seq<u32>,
    width: int,
    height: int,
)
    requires
        forall|row: int, col: int|
            0 <= row < height && 0 <= col < width ==> bytes[pix_off(width, row, col)] == le_byte0(
                pixels[row * width + col],
            ) && bytes[pix_off(width, row, col) + 1] == le_byte1(pixels[row * width + col])
                && bytes[pix_off(width, row, col) + 2] == le_byte2(pixels[row * width + col]),
        forall|row: int, col: int|
            0 <= row < height && 0 <= col < width ==> decoded[row * width + col] == rgb_u32(
                bytes[pix_off(width, row, col) + 2],
                bytes[pix_off(width, row, col) + 1],
                bytes[pix_off(width, row, col)],
            ),
    ensures
        forall|row: int, col: int|
            #![trigger decoded[row * width + col]]
            0 <= row < height && 0 <= col < width ==> decoded[row * width + col] == pixels[row
                * width + col] & 0xFFFFFF,
{
    assert forall|row: int, col: int|
        #![trigger decoded[row * width + col]]
        0 <= row < height && 0 <= col < width implies decoded[row * width + col] == pixels[row
        * width + col] & 0xFFFFFF by {
        lemma_round_trip_byte(pixels[row * width + col]);
        assert(bytes[pix_off(width, row, col)] == le_byte0(pixels[row * width + col]));
        assert(decoded[row * width + col] == rgb_u32(
            bytes[pix_off(width, row, col) + 2],
            bytes[pix_off(width, row, col) + 1],
            bytes[pix_off(width, row, col)],
        ));
    }
}

} // verus!
