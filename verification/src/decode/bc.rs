//! What the bytes of the blocks of BC2 to BC5 mean, and the decoders of
//! blocks, of surfaces and of rectangles of surfaces of BC1 to BC5.
//!
//! A BC4 block holds two endpoints of one byte each and, in two groups of
//! three bytes, 16 indices of 3 bits. The endpoints span a palette of eight
//! values; each index picks the value of a pixel from it. A BC5 block is
//! two BC4 blocks, and the alpha of a BC3 block is one.

use vstd::prelude::*;

use crate::decode::bc1::{
    bc1_color_pixel, bc1_pixel, decompress_bc1_block, decompress_color_block,
};
use crate::decoder::Rect;
use crate::encode::bc::n4_to_u8;
use crate::format::Format;
use crate::grid::Rgba8;
use crate::layout::{blocks, Size};

verus! {

/// The place value of field `j` among the eight fields of 3 bits that a
/// group of three bytes holds: 8 to the power of `j`.
pub open spec fn pow8(j: nat) -> nat {
    if j == 0 {
        1
    } else if j == 1 {
        8
    } else if j == 2 {
        64
    } else if j == 3 {
        512
    } else if j == 4 {
        4096
    } else if j == 5 {
        32768
    } else if j == 6 {
        262144
    } else {
        2097152
    }
}

/// The number that group `g` of a block holds: three bytes in
/// little-endian order, the first group in bytes 2 to 4, the second in
/// bytes 5 to 7.
pub open spec fn bc4_group(block: Seq<u8>, g: nat) -> nat {
    block[2 + 3 * g as int] as nat + 256 * (block[3 + 3 * g as int] as nat) + 65536 * (block[4
        + 3 * g as int] as nat)
}

/// The index of pixel `i` of a block.
pub open spec fn bc4_index(block: Seq<u8>, i: nat) -> nat {
    bc4_group(block, i / 8) / pow8(i % 8) % 8
}

/// The place of a byte in the order of the values that it stands for,
/// from 0 to 255. An unsigned byte is its own place. A signed byte stands
/// for a number from -127 to 127, to which 128 is added; -128 counts as
/// -127.
pub open spec fn bc4_key(byte: u8, snorm: bool) -> int {
    if !snorm {
        byte as int
    } else if byte < 128 {
        byte + 128
    } else if byte == 128 {
        1
    } else {
        byte - 128
    }
}

/// The byte at the given place in the order of values.
pub open spec fn bc4_byte(key: int, snorm: bool) -> u8 {
    if !snorm {
        key as u8
    } else if key >= 128 {
        (key - 128) as u8
    } else {
        (key + 128) as u8
    }
}

/// The lowest place that stands for a value: 0, or 1 for signed bytes.
pub open spec fn bc4_lowest(snorm: bool) -> int {
    if snorm {
        1
    } else {
        0
    }
}

/// Entry `index` of the palette that the endpoints at the places `k0` and
/// `k1` span, as a place. Where the first endpoint is above the second,
/// the entries 2 to 7 divide the span evenly in seven parts; else the
/// entries 2 to 5 divide it in five, and the entries 6 and 7 are the
/// lowest and the highest value. A division is rounded to the nearest
/// place.
pub open spec fn bc4_palette(k0: int, k1: int, lowest: int, index: nat) -> int {
    if index == 0 {
        k0
    } else if index == 1 {
        k1
    } else if k0 > k1 {
        ((8 - index) * k0 + (index - 1) * k1 + 3) / 7
    } else if index < 6 {
        ((6 - index) * k0 + (index - 1) * k1 + 2) / 5
    } else if index == 6 {
        lowest
    } else {
        255
    }
}

/// The value of pixel `i` of a block.
pub open spec fn bc4_value(block: Seq<u8>, i: nat, snorm: bool) -> u8 {
    bc4_byte(
        bc4_palette(
            bc4_key(block[0], snorm),
            bc4_key(block[1], snorm),
            bc4_lowest(snorm),
            bc4_index(block, i),
        ),
        snorm,
    )
}

/// The place value of field `j` of a group.
fn pow8_of(j: usize) -> (p: u32)
    requires
        j < 8,
    ensures
        p == pow8(j as nat),
{
    if j == 0 {
        1
    } else if j == 1 {
        8
    } else if j == 2 {
        64
    } else if j == 3 {
        512
    } else if j == 4 {
        4096
    } else if j == 5 {
        32768
    } else if j == 6 {
        262144
    } else {
        2097152
    }
}

/// The place of a byte in the order of the values that it stands for.
pub fn key_of(byte: u8, snorm: bool) -> (key: u8)
    ensures
        key == bc4_key(byte, snorm),
        key >= bc4_lowest(snorm),
{
    if !snorm {
        byte
    } else if byte < 128 {
        byte + 128
    } else if byte == 128 {
        1
    } else {
        byte - 128
    }
}

/// The byte at the given place in the order of values.
pub fn byte_of(key: u8, snorm: bool) -> (byte: u8)
    ensures
        byte == bc4_byte(key as int, snorm),
{
    if !snorm {
        key
    } else if key >= 128 {
        key - 128
    } else {
        key + 128
    }
}

/// A byte is found again from its place, but for the signed byte -128,
/// which counts as -127.
pub proof fn lemma_key_round_trip(byte: u8, key: u8, snorm: bool)
    ensures
        !(snorm && byte == 128) ==> bc4_byte(bc4_key(byte, snorm), snorm) == byte,
        snorm ==> bc4_byte(bc4_key(128, snorm), snorm) == 129,
        key >= bc4_lowest(snorm) ==> bc4_key(bc4_byte(key as int, snorm), snorm) == key,
{
}

/// The sum of two values of a byte, each taken a number of times.
fn weighted(w0: u32, k0: u32, w1: u32, k1: u32) -> (r: u32)
    requires
        w0 <= 8,
        w1 <= 8,
        k0 <= 255,
        k1 <= 255,
    ensures
        r == w0 * k0 + w1 * k1,
        r <= (w0 + w1) * 255,
{
    assert(w0 * k0 <= w0 * 255 && w1 * k1 <= w1 * 255) by (nonlinear_arith)
        requires
            k0 <= 255,
            k1 <= 255,
    ;
    w0 * k0 + w1 * k1
}

/// Decodes a BC4 block: the values of its 16 pixels, row by row.
pub fn decompress_bc4_block(block: [u8; 8], snorm: bool) -> (out: [u8; 16])
    ensures
        forall|i: int| 0 <= i < 16 ==> #[trigger] out@[i] == bc4_value(block@, i as nat, snorm),
{
    let k0: u32 = key_of(block[0], snorm) as u32;
    let k1: u32 = key_of(block[1], snorm) as u32;
    let lowest: u32 = if snorm {
        1
    } else {
        0
    };
    let mut out: [u8; 16] = [0u8;16];
    let mut i: usize = 0;
    while i < 16
        invariant
            i <= 16,
            k0 == bc4_key(block@[0], snorm),
            k1 == bc4_key(block@[1], snorm),
            lowest == bc4_lowest(snorm),
            forall|j: int| 0 <= j < i ==> #[trigger] out@[j] == bc4_value(block@, j as nat, snorm),
        decreases 16 - i,
    {
        let g: usize = i / 8;
        let group: u32 = block[2 + 3 * g] as u32 + 256 * (block[3 + 3 * g] as u32) + 65536 * (
        block[4 + 3 * g] as u32);
        let index: u32 = group / pow8_of(i % 8) % 8;
        let key: u32 = if index == 0 {
            k0
        } else if index == 1 {
            k1
        } else if k0 > k1 {
            (weighted(8 - index, k0, index - 1, k1) + 3) / 7
        } else if index < 6 {
            (weighted(6 - index, k0, index - 1, k1) + 2) / 5
        } else if index == 6 {
            lowest
        } else {
            255
        };
        out[i] = byte_of(key as u8, snorm);
        i = i + 1;
    }
    out
}


/// The unsigned byte that stands for the value that a signed byte stands
/// for, where that is not below 0, and else 0.
pub open spec fn unorm_of(byte: u8) -> u8 {
    if 1 <= byte <= 127 {
        ((byte * 255 + 63) / 127) as u8
    } else {
        0
    }
}

/// A value in the coding of the format as an unsigned byte.
pub open spec fn out_of_coding(byte: u8, snorm: bool) -> u8 {
    if snorm {
        unorm_of(byte)
    } else {
        byte
    }
}

/// A channel of a color that was multiplied by the alpha `a`, without the
/// alpha: divided by it, and at most 255; 0 where the alpha is 0.
pub open spec fn unmultiplied(c: u8, a: u8) -> u8 {
    if a == 0 {
        0
    } else if (c * 255 + a / 2) / (a as int) > 255 {
        255
    } else {
        ((c * 255 + a / 2) / (a as int)) as u8
    }
}

/// A color without its alpha in red, green and blue, where `premultiplied`
/// says that it is in them.
pub open spec fn straight(p: Rgba8, premultiplied: bool) -> Rgba8 {
    if premultiplied {
        Rgba8 {
            r: unmultiplied(p.r, p.a),
            g: unmultiplied(p.g, p.a),
            b: unmultiplied(p.b, p.a),
            a: p.a,
        }
    } else {
        p
    }
}

/// The format is one that stores signed bytes.
pub open spec fn is_signed(format: Format) -> bool {
    format == Format::BC4_SNORM || format == Format::BC5_SNORM
}

/// The format is one that stores colors multiplied by their alpha.
pub open spec fn is_premultiplied(format: Format) -> bool {
    format == Format::BC2_UNORM_PREMULTIPLIED_ALPHA || format
        == Format::BC3_UNORM_PREMULTIPLIED_ALPHA
}

/// The color of pixel `i` of a block of one of the formats BC1 to BC5.
/// BC2 has an alpha of 4 bits for each pixel before its colors, BC3 a BC4
/// block of alpha. BC4 has one value, which is red, green and blue of an
/// opaque gray; BC5 has red and green, with a blue of 0. A format that
/// stores colors multiplied by alpha gives them without it.
pub open spec fn block_pixel(format: Format, block: Seq<u8>, i: nat) -> Rgba8 {
    let snorm = is_signed(format);
    if format == Format::BC1_UNORM {
        bc1_pixel(block, i)
    } else if format == Format::BC2_UNORM || format == Format::BC2_UNORM_PREMULTIPLIED_ALPHA {
        let nibble = block[i as int / 2] as nat / (if i % 2 == 0 {
            1nat
        } else {
            16nat
        }) % 16;
        straight(
            Rgba8 { a: (nibble * 17) as u8, ..bc1_color_pixel(block.skip(8), i) },
            is_premultiplied(format),
        )
    } else if format == Format::BC3_UNORM || format == Format::BC3_UNORM_PREMULTIPLIED_ALPHA {
        straight(
            Rgba8 { a: bc4_value(block, i, false), ..bc1_color_pixel(block.skip(8), i) },
            is_premultiplied(format),
        )
    } else if format == Format::BC4_UNORM || format == Format::BC4_SNORM {
        let v = out_of_coding(bc4_value(block, i, snorm), snorm);
        Rgba8 { r: v, g: v, b: v, a: 255 }
    } else {
        Rgba8 {
            r: out_of_coding(bc4_value(block, i, snorm), snorm),
            g: out_of_coding(bc4_value(block.skip(8), i, snorm), snorm),
            b: 0,
            a: 255,
        }
    }
}

/// The bytes of the block in column `bx` and row `by` of the blocks of a
/// surface `width` pixels wide: the blocks of a surface follow each other
/// row by row.
pub open spec fn block_of(format: Format, data: Seq<u8>, width: nat, bx: nat, by: nat) -> Seq<u8> {
    let bytes = format.spec_pixel_info().bytes_per_block as nat;
    let k = by * blocks(width, 4) + bx;
    data.subrange((k * bytes) as int, (k * bytes + bytes) as int)
}

/// The color of the pixel in column `x` and row `y` of a surface `width`
/// pixels wide in one of the formats BC1 to BC5: a pixel of the block that
/// holds it.
pub open spec fn surface_pixel(format: Format, data: Seq<u8>, width: nat, x: nat, y: nat) -> Rgba8 {
    block_pixel(format, block_of(format, data, width, x / 4, y / 4), (y % 4) * 4 + x % 4)
}

/// A value in the coding of the format as an unsigned byte.
fn from_coding(byte: u8, snorm: bool) -> (v: u8)
    ensures
        v == out_of_coding(byte, snorm),
{
    if !snorm {
        byte
    } else if 1 <= byte && byte <= 127 {
        ((byte as u32 * 255 + 63) / 127) as u8
    } else {
        0
    }
}

/// A channel of a color without the alpha that it was multiplied by.
fn unmultiply(c: u8, a: u8) -> (v: u8)
    ensures
        v == unmultiplied(c, a),
{
    if a == 0 {
        0
    } else {
        let q: u32 = (c as u32 * 255 + a as u32 / 2) / (a as u32);
        if q > 255 {
            255
        } else {
            q as u8
        }
    }
}

/// A color without its alpha in red, green and blue.
fn to_straight(p: Rgba8, premultiplied: bool) -> (q: Rgba8)
    ensures
        q == straight(p, premultiplied),
{
    if premultiplied {
        Rgba8 { r: unmultiply(p.r, p.a), g: unmultiply(p.g, p.a), b: unmultiply(p.b, p.a), a: p.a }
    } else {
        p
    }
}

/// Eight bytes of `data` from byte `at` on.
fn eight(data: &[u8], at: usize) -> (out: [u8; 8])
    requires
        at + 8 <= data.len(),
    ensures
        out@ == data@.subrange(at as int, at + 8),
{
    let out = [
        data[at],
        data[at + 1],
        data[at + 2],
        data[at + 3],
        data[at + 4],
        data[at + 5],
        data[at + 6],
        data[at + 7],
    ];
    assert(out@ =~= data@.subrange(at as int, at + 8));
    out
}

/// Decodes the block of one of the formats BC1 to BC5 that starts at byte
/// `at` of `data`: the colors of its 16 pixels, row by row.
pub fn decode_block(format: Format, data: &[u8], at: usize) -> (out: [Rgba8; 16])
    requires
        format.is_bc1_to_bc5(),
        at + format.spec_pixel_info().bytes_per_block <= data.len(),
    ensures
        forall|i: int|
            0 <= i < 16 ==> #[trigger] out@[i] == block_pixel(
                format,
                data@.subrange(at as int, at + format.spec_pixel_info().bytes_per_block),
                i as nat,
            ),
{
    let ghost bytes = format.spec_pixel_info().bytes_per_block as int;
    let ghost block = data@.subrange(at as int, at + bytes);
    let first = eight(data, at);
    assert(forall|j: int| 0 <= j < 8 ==> first@[j] == block[j]);
    match format {
        Format::BC1_UNORM => {
            assert(first@ =~= block);
            decompress_bc1_block(first)
        },
        Format::BC2_UNORM | Format::BC2_UNORM_PREMULTIPLIED_ALPHA => {
            let premultiplied = match format {
                Format::BC2_UNORM_PREMULTIPLIED_ALPHA => true,
                _ => false,
            };
            let second = eight(data, at + 8);
            assert(second@ =~= block.skip(8));
            let mut out = decompress_color_block(second);
            let mut i: usize = 0;
            while i < 16
                invariant
                    i <= 16,
                    bytes == 16,
                    block == data@.subrange(at as int, at + bytes),
                    premultiplied == is_premultiplied(format),
                    format == Format::BC2_UNORM || format == Format::BC2_UNORM_PREMULTIPLIED_ALPHA,
                    forall|j: int| 0 <= j < 8 ==> first@[j] == block[j],
                    forall|j: int| 0 <= j < i ==> #[trigger] out@[j] == block_pixel(format, block, j as nat),
                    forall|j: int|
                        i <= j < 16 ==> #[trigger] out@[j] == bc1_color_pixel(block.skip(8), j as nat),
                decreases 16 - i,
            {
                let nibble: u8 = first[i / 2] / (if i % 2 == 0 {
                    1
                } else {
                    16
                }) % 16;
                let p = out[i];
                out[i] = to_straight(
                    Rgba8 { r: p.r, g: p.g, b: p.b, a: n4_to_u8(nibble) },
                    premultiplied,
                );
                i = i + 1;
            }
            out
        },
        Format::BC3_UNORM | Format::BC3_UNORM_PREMULTIPLIED_ALPHA => {
            let premultiplied = match format {
                Format::BC3_UNORM_PREMULTIPLIED_ALPHA => true,
                _ => false,
            };
            let second = eight(data, at + 8);
            assert(second@ =~= block.skip(8));
            let alpha = decompress_bc4_block(first, false);
            assert(forall|j: int|
                0 <= j < 16 ==> #[trigger] alpha@[j] == bc4_value(block, j as nat, false)) by {
                assert(forall|j: nat| j < 16 ==> bc4_value(first@, j, false) == bc4_value(block, j, false));
            }
            let mut out = decompress_color_block(second);
            let mut i: usize = 0;
            while i < 16
                invariant
                    i <= 16,
                    premultiplied == is_premultiplied(format),
                    format == Format::BC3_UNORM || format == Format::BC3_UNORM_PREMULTIPLIED_ALPHA,
                    forall|j: int|
                        0 <= j < 16 ==> #[trigger] alpha@[j] == bc4_value(block, j as nat, false),
                    forall|j: int| 0 <= j < i ==> #[trigger] out@[j] == block_pixel(format, block, j as nat),
                    forall|j: int|
                        i <= j < 16 ==> #[trigger] out@[j] == bc1_color_pixel(block.skip(8), j as nat),
                decreases 16 - i,
            {
                let p = out[i];
                out[i] = to_straight(Rgba8 { r: p.r, g: p.g, b: p.b, a: alpha[i] }, premultiplied);
                i = i + 1;
            }
            out
        },
        Format::BC4_UNORM | Format::BC4_SNORM => {
            let snorm = match format {
                Format::BC4_SNORM => true,
                _ => false,
            };
            let values = decompress_bc4_block(first, snorm);
            assert(forall|j: nat| j < 16 ==> bc4_value(first@, j, snorm) == bc4_value(block, j, snorm));
            let mut out: [Rgba8; 16] = [Rgba8 { r: 0, g: 0, b: 0, a: 0 };16];
            let mut i: usize = 0;
            while i < 16
                invariant
                    i <= 16,
                    snorm == is_signed(format),
                    format == Format::BC4_UNORM || format == Format::BC4_SNORM,
                    forall|j: int|
                        0 <= j < 16 ==> #[trigger] values@[j] == bc4_value(block, j as nat, snorm),
                    forall|j: int| 0 <= j < i ==> #[trigger] out@[j] == block_pixel(format, block, j as nat),
                decreases 16 - i,
            {
                let v = from_coding(values[i], snorm);
                out[i] = Rgba8 { r: v, g: v, b: v, a: 255 };
                i = i + 1;
            }
            out
        },
        _ => {
            let snorm = match format {
                Format::BC5_SNORM => true,
                _ => false,
            };
            let second = eight(data, at + 8);
            assert(second@ =~= block.skip(8));
            let red = decompress_bc4_block(first, snorm);
            let green = decompress_bc4_block(second, snorm);
            assert(forall|j: nat| j < 16 ==> bc4_value(first@, j, snorm) == bc4_value(block, j, snorm));
            let mut out: [Rgba8; 16] = [Rgba8 { r: 0, g: 0, b: 0, a: 0 };16];
            let mut i: usize = 0;
            while i < 16
                invariant
                    i <= 16,
                    snorm == is_signed(format),
                    format == Format::BC5_UNORM || format == Format::BC5_SNORM,
                    forall|j: int|
                        0 <= j < 16 ==> #[trigger] red@[j] == bc4_value(block, j as nat, snorm),
                    forall|j: int|
                        0 <= j < 16 ==> #[trigger] green@[j] == bc4_value(
                            block.skip(8),
                            j as nat,
                            snorm,
                        ),
                    forall|j: int| 0 <= j < i ==> #[trigger] out@[j] == block_pixel(format, block, j as nat),
                decreases 16 - i,
            {
                out[i] = Rgba8 {
                    r: from_coding(red[i], snorm),
                    g: from_coding(green[i], snorm),
                    b: 0,
                    a: 255,
                };
                i = i + 1;
            }
            out
        },
    }
}


/// Decodes the block that holds the pixel in column `x` and row `y` of a
/// surface.
fn block_at(format: Format, data: &[u8], size: Size, x: u32, y: u32) -> (tile: [Rgba8; 16])
    requires
        format.is_bc1_to_bc5(),
        data@.len() == format.spec_pixel_info().surface_len(size.width as nat, size.height as nat),
        x < size.width,
        y < size.height,
    ensures
        forall|i: int|
            0 <= i < 16 ==> #[trigger] tile@[i] == block_pixel(
                format,
                block_of(format, data@, size.width as nat, (x / 4) as nat, (y / 4) as nat),
                i as nat,
            ),
{
    let len: usize = data.len();
    let bytes: usize = format.pixel_info().bytes_per_block as usize;
    let across: usize = ((size.width - 1) / 4 + 1) as usize;
    let bx: usize = (x / 4) as usize;
    let by: usize = (y / 4) as usize;
    let ghost down = blocks(size.height as nat, 4) as int;
    proof {
        assert(across == blocks(size.width as nat, 4));
        assert(len == across * down * bytes);
        assert(bx < across && by < down);
        assert(0 <= by * across && by * across + bx < across * down) by (nonlinear_arith)
            requires
                0 <= bx < across,
                0 <= by < down,
        ;
        let k = by * across + bx;
        assert(0 <= k <= k * bytes && k * bytes + bytes <= across * down * bytes)
            by (nonlinear_arith)
            requires
                0 <= k < across * down,
                bytes >= 1,
        ;
    }
    let k: usize = by * across + bx;
    decode_block(format, data, k * bytes)
}

/// The rectangle of a surface can be decoded: the format is one of BC1 to
/// BC5, `len` bytes are the bytes of a surface of the given size, the
/// rectangle lies within the surface, and its pixels can be counted.
pub open spec fn can_decode_rect(format: Format, len: nat, size: Size, rect: Rect) -> bool {
    &&& format.is_bc1_to_bc5()
    &&& len == format.spec_pixel_info().surface_len(size.width as nat, size.height as nat)
    &&& rect.within(size)
    &&& rect.width * rect.height <= usize::MAX
}

/// Decodes a rectangle of a surface in one of the formats BC1 to BC5 from
/// the bytes of the surface: the colors of the pixels of the rectangle, row
/// by row. Each is the color that decoding the whole surface gives to that
/// pixel.
///
/// `None` where the rectangle of the surface cannot be decoded.
pub fn decode_bc_rect(format: Format, data: &[u8], size: Size, rect: Rect) -> (r: Option<
    Vec<Rgba8>,
>)
    ensures
        match r {
            Some(pixels) => {
                &&& can_decode_rect(format, data@.len(), size, rect)
                &&& pixels@.len() == rect.width * rect.height
                &&& forall|j: int|
                    0 <= j < pixels@.len() ==> #[trigger] pixels@[j] == surface_pixel(
                        format,
                        data@,
                        size.width as nat,
                        (rect.x + j % (rect.width as int)) as nat,
                        (rect.y + j / (rect.width as int)) as nat,
                    )
            },
            None => !can_decode_rect(format, data@.len(), size, rect),
        },
{
    match format {
        Format::BC1_UNORM
        | Format::BC2_UNORM
        | Format::BC2_UNORM_PREMULTIPLIED_ALPHA
        | Format::BC3_UNORM
        | Format::BC3_UNORM_PREMULTIPLIED_ALPHA
        | Format::BC4_UNORM
        | Format::BC4_SNORM
        | Format::BC5_UNORM
        | Format::BC5_SNORM => {},
        _ => {
            return None;
        },
    }
    let surface_len: u128 = format.pixel_info().surface_bytes(size.width, size.height);
    if data.len() as u128 != surface_len {
        return None;
    }
    if !rect.is_within(size) {
        return None;
    }
    assert(rect.width * rect.height <= 0xFFFF_FFFF * 0xFFFF_FFFF) by (nonlinear_arith)
        requires
            rect.width <= 0xFFFF_FFFF,
            rect.height <= 0xFFFF_FFFF,
    ;
    let count: u64 = rect.width as u64 * rect.height as u64;
    if count > usize::MAX as u64 {
        return None;
    }
    let mut pixels: Vec<Rgba8> = Vec::new();
    if rect.width == 0 || rect.height == 0 {
        assert(rect.width * rect.height == 0) by (nonlinear_arith)
            requires
                rect.width == 0 || rect.height == 0,
        ;
        return Some(pixels);
    }
    let ghost w = rect.width as int;
    let ghost width = size.width as nat;
    let mut tile: [Rgba8; 16] = [Rgba8 { r: 0, g: 0, b: 0, a: 0 };16];
    let mut row: u32 = 0;
    while row < rect.height
        invariant
            row <= rect.height,
            format.is_bc1_to_bc5(),
            data@.len() == format.spec_pixel_info().surface_len(
                size.width as nat,
                size.height as nat,
            ),
            rect.within(size),
            rect.width >= 1,
            w == rect.width,
            width == size.width,
            pixels@.len() == row * w,
            forall|j: int|
                0 <= j < pixels@.len() ==> #[trigger] pixels@[j] == surface_pixel(
                    format,
                    data@,
                    width,
                    (rect.x + j % w) as nat,
                    (rect.y + j / w) as nat,
                ),
        decreases rect.height - row,
    {
        let y: u32 = rect.y + row;
        let mut column: u32 = 0;
        assert(row * w + 0 == row * w);
        while column < rect.width
            invariant
                column <= rect.width,
                row < rect.height,
                y == rect.y + row,
                format.is_bc1_to_bc5(),
                data@.len() == format.spec_pixel_info().surface_len(
                    size.width as nat,
                    size.height as nat,
                ),
                rect.within(size),
                rect.width >= 1,
                w == rect.width,
                width == size.width,
                pixels@.len() == row * w + column,
                column == 0 || (rect.x + column) % 4 == 0 || forall|i: int|
                    0 <= i < 16 ==> #[trigger] tile@[i] == block_pixel(
                        format,
                        block_of(format, data@, width, ((rect.x + column) / 4) as nat, (y / 4) as nat),
                        i as nat,
                    ),
                forall|j: int|
                    0 <= j < pixels@.len() ==> #[trigger] pixels@[j] == surface_pixel(
                        format,
                        data@,
                        width,
                        (rect.x + j % w) as nat,
                        (rect.y + j / w) as nat,
                    ),
            decreases rect.width - column,
        {
            let x: u32 = rect.x + column;
            if column == 0 || x % 4 == 0 {
                tile = block_at(format, data, size, x, y);
            }
            let p = tile[((y % 4) * 4 + x % 4) as usize];
            proof {
                let j = (row * w + column) as int;
                vstd::arithmetic::div_mod::lemma_fundamental_div_mod_converse(
                    j,
                    w,
                    row as int,
                    column as int,
                );
                assert(p == surface_pixel(format, data@, width, x as nat, y as nat));
                if (x + 1) % 4 != 0 {
                    assert((x + 1) / 4 == x / 4);
                }
            }
            pixels.push(p);
            column = column + 1;
        }
        assert((row + 1) * w == row * w + w) by (nonlinear_arith);
        row = row + 1;
    }
    assert(rect.height * w == rect.width * rect.height) by (nonlinear_arith)
        requires
            w == rect.width,
    ;
    Some(pixels)
}

/// Decodes a surface in one of the formats BC1 to BC5 from its bytes: the
/// colors of its pixels, row by row.
///
/// `None` where the format is another, where `data` does not hold the
/// bytes of a surface of the given size, and where the pixels cannot be
/// counted.
pub fn decode_bc_surface(format: Format, data: &[u8], size: Size) -> (r: Option<Vec<Rgba8>>)
    ensures
        match r {
            Some(pixels) => {
                &&& format.is_bc1_to_bc5()
                &&& data@.len() == format.spec_pixel_info().surface_len(
                    size.width as nat,
                    size.height as nat,
                )
                &&& pixels@.len() == size.width * size.height
                &&& forall|j: int|
                    0 <= j < pixels@.len() ==> #[trigger] pixels@[j] == surface_pixel(
                        format,
                        data@,
                        size.width as nat,
                        (j % (size.width as int)) as nat,
                        (j / (size.width as int)) as nat,
                    )
            },
            None => !can_decode_rect(
                format,
                data@.len(),
                size,
                Rect { x: 0, y: 0, width: size.width, height: size.height },
            ),
        },
{
    decode_bc_rect(
        format,
        data,
        size,
        Rect { x: 0, y: 0, width: size.width, height: size.height },
    )
}


/// The pixels of a rectangle of a surface, row by row, as the decoder of
/// rectangles gives them.
pub open spec fn is_rect_of(pixels: Seq<Rgba8>, format: Format, data: Seq<u8>, width: nat, rect: Rect) -> bool {
    &&& pixels.len() == rect.width * rect.height
    &&& forall|j: int|
        0 <= j < pixels.len() ==> #[trigger] pixels[j] == surface_pixel(
            format,
            data,
            width,
            (rect.x + j % (rect.width as int)) as nat,
            (rect.y + j / (rect.width as int)) as nat,
        )
}

/// Decoding a rectangle of a surface gives the pixels that decoding the
/// whole surface gives in that rectangle: the pixel in column `i` and row
/// `j` of the rectangle is the pixel of the surface in column `rect.x + i`
/// and row `rect.y + j`.
pub proof fn lemma_rect_is_part_of_surface(
    format: Format,
    data: Seq<u8>,
    size: Size,
    rect: Rect,
    whole: Seq<Rgba8>,
    part: Seq<Rgba8>,
    i: nat,
    j: nat,
)
    requires
        rect.within(size),
        is_rect_of(
            whole,
            format,
            data,
            size.width as nat,
            Rect { x: 0, y: 0, width: size.width, height: size.height },
        ),
        is_rect_of(part, format, data, size.width as nat, rect),
        i < rect.width,
        j < rect.height,
    ensures
        j * rect.width + i < part.len(),
        (rect.y + j) * size.width + rect.x + i < whole.len(),
        part[(j * rect.width + i) as int] == whole[((rect.y + j) * size.width + rect.x + i) as int],
{
    let w = rect.width as int;
    let sw = size.width as int;
    let x = rect.x + i;
    let y = rect.y + j;
    assert(0 <= j * w + i < rect.width * rect.height) by (nonlinear_arith)
        requires
            0 <= i < w,
            0 <= j < rect.height,
            w == rect.width,
    ;
    assert(0 <= y * sw + x < size.width * size.height) by (nonlinear_arith)
        requires
            0 <= x < sw,
            0 <= y < size.height,
            sw == size.width,
    ;
    vstd::arithmetic::div_mod::lemma_fundamental_div_mod_converse(j * w + i, w, j as int, i as int);
    vstd::arithmetic::div_mod::lemma_fundamental_div_mod_converse(y * sw + x, sw, y as int, x as int);
    assert(part[(j * w + i) as int] == surface_pixel(format, data, size.width as nat, x as nat, y as nat));
    assert(whole[(y * sw + x) as int] == surface_pixel(
        format,
        data,
        size.width as nat,
        x as nat,
        y as nat,
    ));
}

} // verus!
