//! The decoders of surfaces: from the bytes of a surface to its pixels,
//! with four channels of 8 bits each.

use vstd::prelude::*;

use crate::decode::bc::{can_decode_rect, decode_bc_surface, is_rect_of};
use crate::decoder::Rect;
use crate::format::Format;
use crate::grid::Rgba8;
use crate::layout::Size;
use crate::uncompressed::{decode_uncompressed, is_decoded};

pub mod bc;
pub mod bc1;

verus! {

/// Decodes a surface from its bytes: the colors of its pixels, row by row.
/// An uncompressed format whose channels are whole numbers is decoded
/// pixel by pixel, one of the formats BC1 to BC5 block by block.
///
/// `None` for another format, and where `data` does not hold the bytes of
/// a surface of the given size.
pub fn decode_surface(format: Format, data: &[u8], size: Size) -> (r: Option<Vec<Rgba8>>)
    ensures
        match r {
            Some(pixels) => {
                &&& pixels@.len() == size.width * size.height
                &&& match format.spec_pixel_layout() {
                    Some(layout) => is_decoded(pixels@, layout, data@),
                    None => format.is_bc1_to_bc5() && is_rect_of(
                        pixels@,
                        format,
                        data@,
                        size.width as nat,
                        Rect { x: 0, y: 0, width: size.width, height: size.height },
                    ),
                }
            },
            None => match format.spec_pixel_layout() {
                Some(layout) => data@.len() != size.width * size.height * layout.bytes,
                None => !can_decode_rect(
                    format,
                    data@.len(),
                    size,
                    Rect { x: 0, y: 0, width: size.width, height: size.height },
                ),
            },
        },
{
    if format.pixel_layout().is_some() {
        decode_uncompressed(format, data, size)
    } else {
        decode_bc_surface(format, data, size)
    }
}


/// A channel of a color by its place in a pixel of four bytes: red, green,
/// blue, alpha.
pub open spec fn byte_of_color(p: Rgba8, k: int) -> u8 {
    if k == 0 {
        p.r
    } else if k == 1 {
        p.g
    } else if k == 2 {
        p.b
    } else {
        p.a
    }
}

/// Rows of `width` pixels of four bytes can be stored `row_pitch` bytes
/// apart in a buffer of `len` bytes: the pixels make whole rows, a row has
/// room between one row and the next, and the buffer has room for the
/// rows.
pub open spec fn can_store(len: nat, row_pitch: nat, width: nat, pixels: nat) -> bool {
    &&& width >= 1
    &&& pixels % width == 0
    &&& row_pitch >= 4 * width
    &&& len >= row_pitch * (pixels / width)
}

/// Byte `i` of a buffer after rows of pixels were stored in it: a channel
/// of the pixel that lies there, or where no pixel lies, what was there
/// before.
pub open spec fn stored_byte(
    before: Seq<u8>,
    row_pitch: nat,
    width: nat,
    pixels: Seq<Rgba8>,
    i: int,
) -> u8 {
    let row = i / (row_pitch as int);
    let column = i % (row_pitch as int);
    if row < pixels.len() / width && column < 4 * width {
        byte_of_color(pixels[row * width + column / 4], column % 4)
    } else {
        before[i]
    }
}

/// Stores rows of `width` pixels in a buffer, four bytes a pixel and the
/// rows `row_pitch` bytes apart. No byte between the rows and none after
/// them is touched.
///
/// Says whether the rows could be stored; where not, the buffer stays as
/// it is.
pub fn store_rows(buffer: &mut [u8], row_pitch: usize, width: usize, pixels: &[Rgba8]) -> (ok: bool)
    ensures
        ok == can_store(old(buffer)@.len(), row_pitch as nat, width as nat, pixels@.len()),
        final(buffer)@.len() == old(buffer)@.len(),
        !ok ==> final(buffer)@ == old(buffer)@,
        ok ==> forall|i: int|
            0 <= i < final(buffer)@.len() ==> #[trigger] final(buffer)@[i] == stored_byte(
                old(buffer)@,
                row_pitch as nat,
                width as nat,
                pixels@,
                i,
            ),
{
    if width == 0 || pixels.len() % width != 0 {
        return false;
    }
    let count: usize = pixels.len();
    let height: usize = count / width;
    let len: usize = buffer.len();
    assert(4 * width <= 4 * 0xFFFF_FFFF_FFFF_FFFF);
    if (row_pitch as u128) < 4 * (width as u128) {
        return false;
    }
    assert(row_pitch * height <= 0xFFFF_FFFF_FFFF_FFFF * 0xFFFF_FFFF_FFFF_FFFF) by (nonlinear_arith)
        requires
            row_pitch <= 0xFFFF_FFFF_FFFF_FFFF,
            height <= 0xFFFF_FFFF_FFFF_FFFF,
    ;
    if (len as u128) < (row_pitch as u128) * (height as u128) {
        return false;
    }
    let ghost before = buffer@;
    let ghost pitch = row_pitch as int;
    let ghost w = width as int;
    proof {
        vstd::arithmetic::div_mod::lemma_fundamental_div_mod(pixels@.len() as int, w);
        assert(w * height == height * w) by (nonlinear_arith);
    }
    let mut y: usize = 0;
    while y < height
        invariant
            y <= height,
            w == width,
            w >= 1,
            pitch == row_pitch,
            pitch >= 4 * w,
            height == pixels@.len() / (width as nat),
            pixels@.len() == height * w,
            count == pixels@.len(),
            len == before.len(),
            buffer@.len() == len,
            len >= pitch * height,
            forall|i: int|
                0 <= i < len ==> #[trigger] buffer@[i] == (if i / pitch < y {
                    stored_byte(before, pitch as nat, w as nat, pixels@, i)
                } else {
                    before[i]
                }),
        decreases height - y,
    {
        let mut x: usize = 0;
        while x < width
            invariant
                x <= width,
                y < height,
                w == width,
                w >= 1,
                pitch == row_pitch,
                pitch >= 4 * w,
                height == pixels@.len() / (width as nat),
                pixels@.len() == height * w,
                count == pixels@.len(),
                len == before.len(),
                buffer@.len() == len,
                len >= pitch * height,
                forall|i: int|
                    0 <= i < len ==> #[trigger] buffer@[i] == (if i / pitch < y || (i / pitch == y
                        && i % pitch < 4 * x) {
                        stored_byte(before, pitch as nat, w as nat, pixels@, i)
                    } else {
                        before[i]
                    }),
            decreases width - x,
        {
            assert(0 <= y * w <= y * w + x < height * w && 0 <= y * pitch && y * pitch + pitch
                <= pitch * height) by (nonlinear_arith)
                requires
                    0 <= x < w,
                    0 <= y < height,
                    pitch >= 0,
            ;
            let p = pixels[y * width + x];
            let at: usize = y * row_pitch + 4 * x;
            let ghost earlier = buffer@;
            buffer[at] = p.r;
            buffer[at + 1] = p.g;
            buffer[at + 2] = p.b;
            buffer[at + 3] = p.a;
            proof {
                assert forall|i: int| 0 <= i < len implies #[trigger] buffer@[i] == (if i / pitch
                    < y || (i / pitch == y && i % pitch < 4 * (x + 1)) {
                    stored_byte(before, pitch as nat, w as nat, pixels@, i)
                } else {
                    before[i]
                }) by {
                    let row = i / pitch;
                    let column = i % pitch;
                    vstd::arithmetic::div_mod::lemma_fundamental_div_mod(i, pitch);
                    vstd::arithmetic::div_mod::lemma_mod_bound(i, pitch);
                    assert(pitch * row == row * pitch) by (nonlinear_arith);
                    if at <= i < at + 4 {
                        let k = i - at;
                        vstd::arithmetic::div_mod::lemma_fundamental_div_mod_converse(
                            i,
                            pitch,
                            y as int,
                            4 * x + k,
                        );
                        assert(column / 4 == x && column % 4 == k);
                        assert(row < height);
                    } else {
                        assert(buffer@[i] == earlier[i]);
                        if row == y {
                            assert(i == y * pitch + column);
                            assert(column < 4 * x || column >= 4 * x + 4);
                        }
                    }
                }
            }
            x = x + 1;
        }
        proof {
            assert forall|i: int| 0 <= i < len implies #[trigger] buffer@[i] == (if i / pitch < y
                + 1 {
                stored_byte(before, pitch as nat, w as nat, pixels@, i)
            } else {
                before[i]
            }) by {
                if i / pitch == y && i % pitch >= 4 * w {
                    assert(stored_byte(before, pitch as nat, w as nat, pixels@, i) == before[i]);
                }
            }
        }
        y = y + 1;
    }
    proof {
        assert forall|i: int| 0 <= i < len implies #[trigger] buffer@[i] == stored_byte(
            before,
            pitch as nat,
            w as nat,
            pixels@,
            i,
        ) by {
            if i / pitch >= height {
                assert(stored_byte(before, pitch as nat, w as nat, pixels@, i) == before[i]);
            }
        }
    }
    true
}

} // verus!
