//! The encoders of BC1 to BC5 for images of four channels of 8 bits: how
//! an image is cut into blocks of 4×4 pixels, what is taken from the pixels
//! of a block for each format, and how the parts of an encoded block are
//! put together. The blocks themselves are encoded by the BC1 and the BC4
//! encoder.

use vstd::prelude::*;

use crate::decode::bc::{bc4_value, block_pixel, is_premultiplied, out_of_coding};
use crate::decode::bc1::{bc1_color_pixel, bc1_pixel, rgb565};
use crate::encode::bc1::{
    compress_bc1_block, lemma_bc1_block, lemma_bc1_len, lemma_bc1_uniform,
    lemma_color_of_rgb565, spec_compress_bc1,
};
use crate::encode::bc4::{
    compress_bc4_block, lemma_bc4_len, lemma_bc4_uniform, spec_compress_bc4,
};
use crate::encoder::EncodeOptions;
use crate::error::EncodeError;
use crate::format::Format;
use crate::grid::{PixelGrid, Rgba8};
use crate::layout::blocks;

verus! {

/// How a BC1 block is encoded.
#[derive(Debug, Clone, Copy, PartialEq, Eq, Structural)]
pub struct Bc1Options {
    /// Dither the color indices.
    pub dither: bool,
    /// Never use the mode with a transparent color: the block holds the
    /// colors of a BC2 or BC3 block.
    pub no_default: bool,
}

/// How a BC4 block is encoded.
#[derive(Debug, Clone, Copy, PartialEq, Eq, Structural)]
pub struct Bc4Options {
    /// Dither the indices.
    pub dither: bool,
    /// The endpoints are signed bytes.
    pub snorm: bool,
}

/// The options of the BC1 encoder under `options`.
pub fn get_bc1_options(options: &EncodeOptions) -> (o: Bc1Options)
    ensures
        o == (Bc1Options { dither: options.dithering.color, no_default: false }),
{
    Bc1Options { dither: options.dithering.color, no_default: false }
}

/// The options of the BC4 encoder under `options`, for unsigned endpoints.
pub fn get_bc4_options(options: &EncodeOptions) -> (o: Bc4Options)
    ensures
        o == (Bc4Options { dither: options.dithering.color, snorm: false }),
{
    Bc4Options { dither: options.dithering.color, snorm: false }
}

/// The options of the two halves of a BC3 block under `options`: colors
/// without the transparent mode, alpha with unsigned endpoints.
pub fn get_bc3_options(options: &EncodeOptions) -> (o: (Bc1Options, Bc4Options))
    ensures
        o.0 == (Bc1Options { dither: options.dithering.color, no_default: true }),
        o.1 == (Bc4Options { dither: options.dithering.color, snorm: false }),
{
    let mut bc1_options = get_bc1_options(options);
    bc1_options.no_default = true;
    let mut bc4_options = get_bc4_options(options);
    bc4_options.snorm = false;
    (bc1_options, bc4_options)
}

/// Puts two blocks of 8 bytes together in one of 16.
pub fn concat_blocks(left: [u8; 8], right: [u8; 8]) -> (out: [u8; 16])
    ensures
        out@ == left@ + right@,
{
    let out = [
        left[0],
        left[1],
        left[2],
        left[3],
        left[4],
        left[5],
        left[6],
        left[7],
        right[0],
        right[1],
        right[2],
        right[3],
        right[4],
        right[5],
        right[6],
        right[7],
    ];
    assert(out@ =~= left@ + right@);
    out
}

/// Cuts an image into blocks of 4×4 pixels, in the order in which a
/// surface stores its blocks. A block that reaches over the right or the
/// lower edge of the image is filled up with the nearest pixels of the
/// image: the last column and the last row are repeated.
///
/// An image without pixels is refused.
pub fn block_universal<'a, P: Copy>(grid: &PixelGrid<'a, P>) -> (r: Result<
    Vec<[P; 16]>,
    EncodeError,
>)
    ensures
        match r {
            Ok(tiles) => {
                &&& grid.spec_width() != 0 && grid.spec_height() != 0
                &&& tiles@.len() == blocks(grid.spec_width(), 4) * blocks(grid.spec_height(), 4)
                &&& tiles@.len() == grid.tiles().len()
                &&& forall|k: int| 0 <= k < tiles@.len() ==> (#[trigger] tiles@[k])@ == grid.tiles()[k]
            },
            Err(e) => e == EncodeError::EmptySurface && (grid.spec_width() == 0
                || grid.spec_height() == 0),
        },
{
    let width = grid.width();
    let height = grid.height();
    if width == 0 || height == 0 {
        return Err(EncodeError::EmptySurface);
    }
    let across: usize = (width - 1) / 4 + 1;
    let down: usize = (height - 1) / 4 + 1;
    assert(across == blocks(width as nat, 4));
    assert(down == blocks(height as nat, 4));
    proof {
        use_type_invariant(grid);
        grid.lemma_valid();
        assert(across * down <= width * height) by (nonlinear_arith)
            requires
                0 <= across <= width,
                0 <= down <= height,
        ;
    }
    let mut tiles: Vec<[P; 16]> = Vec::new();
    let mut by: usize = 0;
    while by < down
        invariant
            by <= down,
            across >= 1,
            across == blocks(grid.spec_width(), 4),
            down == blocks(grid.spec_height(), 4),
            across * down <= usize::MAX,
            tiles@.len() == by * across,
            forall|k: int| 0 <= k < tiles@.len() ==> (#[trigger] tiles@[k])@ == grid.tiles()[k],
        decreases down - by,
    {
        let mut bx: usize = 0;
        assert(by * across + 0 == by * across);
        while bx < across
            invariant
                by < down,
                bx <= across,
                across >= 1,
                across == blocks(grid.spec_width(), 4),
                down == blocks(grid.spec_height(), 4),
                across * down <= usize::MAX,
                tiles@.len() == by * across + bx,
                forall|k: int| 0 <= k < tiles@.len() ==> (#[trigger] tiles@[k])@ == grid.tiles()[k],
            decreases across - bx,
        {
            let block = grid.gather_block(bx, by);
            proof {
                let k = (by * across + bx) as int;
                assert(by * across + bx < across * down) by (nonlinear_arith)
                    requires
                        0 <= bx < across,
                        0 <= by < down,
                ;
                vstd::arithmetic::div_mod::lemma_fundamental_div_mod_converse(
                    k,
                    across as int,
                    by as int,
                    bx as int,
                );
                assert(grid.tiles()[k] == block@);
            }
            tiles.push(block);
            bx = bx + 1;
        }
        assert((by + 1) * across == by * across + across) by (nonlinear_arith);
        by = by + 1;
    }
    assert(down * across == across * down) by (nonlinear_arith);
    Ok(tiles)
}


/// The thresholds of ordered dithering for the 16 pixels of a block, row
/// by row: the Bayer matrix of order 4.
pub open spec fn bayer(i: nat) -> nat {
    seq![0nat, 8, 2, 10, 12, 4, 14, 6, 3, 11, 1, 9, 15, 7, 13, 5][i as int]
}

/// What is added to a value before it is cut down to a whole number of
/// steps of 255: half a step to round to the nearest, or with dithering
/// the share of a step that the threshold of the pixel asks for.
pub open spec fn rounding_bias(i: nat, dither: bool) -> nat {
    if dither {
        (bayer(i) * 255 + 127) / 16
    } else {
        127
    }
}

/// The 4-bit value that stands for the 8-bit value `a` at pixel `i` of a
/// block.
pub open spec fn n4_of(a: u8, i: nat, dither: bool) -> nat {
    ((a as nat) * 15 + rounding_bias(i, dither)) / 255
}

/// The threshold of ordered dithering for pixel `i` of a block.
pub fn bayer_threshold(i: usize) -> (t: u8)
    requires
        i < 16,
    ensures
        t == bayer(i as nat),
        t < 16,
{
    if i == 0 {
        0
    } else if i == 1 {
        8
    } else if i == 2 {
        2
    } else if i == 3 {
        10
    } else if i == 4 {
        12
    } else if i == 5 {
        4
    } else if i == 6 {
        14
    } else if i == 7 {
        6
    } else if i == 8 {
        3
    } else if i == 9 {
        11
    } else if i == 10 {
        1
    } else if i == 11 {
        9
    } else if i == 12 {
        15
    } else if i == 13 {
        7
    } else if i == 14 {
        13
    } else {
        5
    }
}

/// Cuts the 8-bit value `a` at pixel `i` of a block down to 4 bits: to the
/// nearest 4-bit value, or with dithering to one of the two nearest, as the
/// threshold of the pixel decides.
pub fn n4_from_u8(a: u8, i: usize, dither: bool) -> (v: u8)
    requires
        i < 16,
    ensures
        v == n4_of(a, i as nat, dither),
        v < 16,
{
    let bias: u32 = if dither {
        (bayer_threshold(i) as u32 * 255 + 127) / 16
    } else {
        127
    };
    ((a as u32 * 15 + bias) / 255) as u8
}

/// The 8-bit value that a 4-bit value stands for.
pub fn n4_to_u8(v: u8) -> (a: u8)
    requires
        v < 16,
    ensures
        a == v * 17,
{
    v * 17
}

/// Without dithering, a 4-bit value is found again from the 8-bit value
/// that it stands for, and no 8-bit value is further than 8 from what its
/// 4-bit value stands for.
pub proof fn lemma_n4_nearest(a: u8, v: u8, i: nat)
    requires
        v < 16,
    ensures
        n4_of((v * 17) as u8, i, false) == v,
        -8 <= n4_of(a, i, false) * 17 - a <= 8,
{
}

/// The alpha half of a BC2 block for the alpha of its 16 pixels: each
/// alpha cut down to 4 bits, two pixels to a byte, the earlier pixel in the
/// low bits.
pub open spec fn spec_bc2_alpha(alpha: Seq<u8>, dither: bool) -> Seq<u8> {
    Seq::new(
        8,
        |k: int|
            (n4_of(alpha[2 * k], (2 * k) as nat, dither) + 16 * n4_of(
                alpha[2 * k + 1],
                (2 * k + 1) as nat,
                dither,
            )) as u8,
    )
}

/// The alpha half of a BC2 block: the alpha of each of the 16 pixels cut
/// down to 4 bits. With alpha dithering in `options` the values are
/// dithered.
pub fn bc2_alpha(alpha: [u8; 16], options: &EncodeOptions) -> (out: [u8; 8])
    ensures
        out@ == spec_bc2_alpha(alpha@, options.dithering.alpha),
{
    let dither = options.dithering.alpha;
    let mut out: [u8; 8] = [0u8;8];
    let mut k: usize = 0;
    while k < 8
        invariant
            k <= 8,
            dither == options.dithering.alpha,
            forall|j: int| 0 <= j < k ==> #[trigger] out@[j] == spec_bc2_alpha(alpha@, dither)[j],
        decreases 8 - k,
    {
        let low: u8 = n4_from_u8(alpha[2 * k], 2 * k, dither);
        let high: u8 = n4_from_u8(alpha[2 * k + 1], 2 * k + 1, dither);
        out[k] = low + 16 * high;
        k = k + 1;
    }
    assert(out@ =~= spec_bc2_alpha(alpha@, dither));
    out
}

impl Format {
    /// The format is one of BC1 to BC5.
    pub open spec fn is_bc1_to_bc5(self) -> bool {
        self.has_blocks_of_8() || self.has_blocks_of_16()
    }

    /// The format is BC1 or BC4, whose blocks take 8 bytes.
    pub open spec fn has_blocks_of_8(self) -> bool {
        self == Format::BC1_UNORM || self == Format::BC4_UNORM || self == Format::BC4_SNORM
    }

    /// The format is BC2, BC3 or BC5, whose blocks take 16 bytes.
    pub open spec fn has_blocks_of_16(self) -> bool {
        ||| self == Format::BC2_UNORM
        ||| self == Format::BC2_UNORM_PREMULTIPLIED_ALPHA
        ||| self == Format::BC3_UNORM
        ||| self == Format::BC3_UNORM_PREMULTIPLIED_ALPHA
        ||| self == Format::BC5_UNORM
        ||| self == Format::BC5_SNORM
    }
}

/// A surface in BC1 or BC4 takes 8 bytes for each block of 4×4 pixels that
/// it needs to cover its width and height, and a surface in BC2, BC3 or BC5
/// takes 16; and such a surface has as many blocks as `block_universal`
/// makes tiles of an image of its size.
pub proof fn lemma_bc_surface_len(format: Format, width: nat, height: nat)
    ensures
        format.has_blocks_of_8() ==> format.spec_pixel_info().surface_len(width, height) == ((width
            + 3) / 4) * ((height + 3) / 4) * 8,
        format.has_blocks_of_16() ==> format.spec_pixel_info().surface_len(width, height) == ((
        width + 3) / 4) * ((height + 3) / 4) * 16,
        format.is_bc1_to_bc5() ==> format.spec_pixel_info().surface_len(width, height) == blocks(
            width,
            4,
        ) * blocks(height, 4) * format.spec_pixel_info().bytes_per_block,
{
}


/// The brightness of a color: 0.299 of its red, 0.587 of its green and
/// 0.114 of its blue, rounded to the nearest.
pub open spec fn luminance(p: Rgba8) -> u8 {
    ((299 * p.r + 587 * p.g + 114 * p.b + 500) / 1000) as u8
}

/// Channel `channel` of a color: red, green, blue, alpha.
pub open spec fn channel_of(p: Rgba8, channel: nat) -> u8 {
    if channel == 0 {
        p.r
    } else if channel == 1 {
        p.g
    } else if channel == 2 {
        p.b
    } else {
        p.a
    }
}

/// A color with its red, green and blue multiplied by its alpha.
pub open spec fn premultiplied(p: Rgba8) -> Rgba8 {
    Rgba8 {
        r: ((p.r * p.a + 127) / 255) as u8,
        g: ((p.g * p.a + 127) / 255) as u8,
        b: ((p.b * p.a + 127) / 255) as u8,
        a: p.a,
    }
}

/// The color of pixel `i` of a block with its alpha dithered to all or
/// nothing: all where the alpha reaches the threshold of the pixel.
pub open spec fn with_dithered_alpha(p: Rgba8, i: nat) -> Rgba8 {
    Rgba8 {
        a: if 32 * p.a >= 255 * (2 * bayer(i) + 1) {
            255
        } else {
            0
        },
        ..p
    }
}

/// The signed byte that stands for the same value as an unsigned byte: a
/// number from 0 to 127.
pub open spec fn snorm_of(v: u8) -> u8 {
    ((v * 127 + 127) / 255) as u8
}

/// The brightness of each pixel of a block.
pub open spec fn grayscale_of(block: Seq<Rgba8>) -> Seq<u8> {
    Seq::new(16, |i: int| luminance(block[i]))
}

/// One channel of each pixel of a block.
pub open spec fn channel_values(block: Seq<Rgba8>, channel: nat) -> Seq<u8> {
    Seq::new(16, |i: int| channel_of(block[i], channel))
}

/// Each value as a signed byte where `snorm` says so, else as it is.
pub open spec fn in_coding(values: Seq<u8>, snorm: bool) -> Seq<u8> {
    Seq::new(
        16,
        |i: int|
            if snorm {
                snorm_of(values[i])
            } else {
                values[i]
            },
    )
}

/// The 4×4 pixels at the start of `data`, where the rows of the image
/// start `row_pitch` pixels apart.
pub fn get_4x4_rgba(data: &[Rgba8], row_pitch: usize) -> (block: [Rgba8; 16])
    requires
        3 * row_pitch + 3 < data.len(),
    ensures
        forall|t: int|
            0 <= t < 16 ==> #[trigger] block@[t] == data@[(t / 4) * row_pitch + t % 4],
{
    let mut block: [Rgba8; 16] = [data[0];16];
    let mut t: usize = 0;
    while t < 16
        invariant
            t <= 16,
            3 * row_pitch + 3 < data.len(),
            forall|s: int| 0 <= s < t ==> #[trigger] block@[s] == data@[(s / 4) * row_pitch + s % 4],
        decreases 16 - t,
    {
        let i: usize = t / 4;
        let j: usize = t % 4;
        assert(0 <= i * row_pitch <= 3 * row_pitch) by (nonlinear_arith)
            requires
                0 <= i <= 3,
                row_pitch >= 0,
        ;
        block[t] = data[i * row_pitch + j];
        t = t + 1;
    }
    block
}

/// The brightness of each pixel of a block.
pub fn get_4x4_grayscale(block: &[Rgba8; 16]) -> (out: [u8; 16])
    ensures
        out@ == grayscale_of(block@),
{
    let mut out: [u8; 16] = [0u8;16];
    let mut i: usize = 0;
    while i < 16
        invariant
            i <= 16,
            forall|j: int| 0 <= j < i ==> #[trigger] out@[j] == luminance(block@[j]),
        decreases 16 - i,
    {
        let p = block[i];
        out[i] = ((299 * (p.r as u32) + 587 * (p.g as u32) + 114 * (p.b as u32) + 500) / 1000) as u8;
        i = i + 1;
    }
    assert(out@ =~= grayscale_of(block@));
    out
}

/// Channel `CHANNEL` of each pixel of a block: red, green, blue, alpha.
pub fn get_4x4_select_channel<const CHANNEL: usize>(block: &[Rgba8; 16]) -> (out: [u8; 16])
    requires
        CHANNEL < 4,
    ensures
        out@ == channel_values(block@, CHANNEL as nat),
{
    let mut out: [u8; 16] = [0u8;16];
    let mut i: usize = 0;
    while i < 16
        invariant
            i <= 16,
            forall|j: int| 0 <= j < i ==> #[trigger] out@[j] == channel_of(block@[j], CHANNEL as nat),
        decreases 16 - i,
    {
        let p = block[i];
        out[i] = if CHANNEL == 0 {
            p.r
        } else if CHANNEL == 1 {
            p.g
        } else if CHANNEL == 2 {
            p.b
        } else {
            p.a
        };
        i = i + 1;
    }
    assert(out@ =~= channel_values(block@, CHANNEL as nat));
    out
}

/// The alpha of each pixel of a block.
pub fn get_alpha(block: &[Rgba8; 16]) -> (out: [u8; 16])
    ensures
        out@ == channel_values(block@, 3),
{
    get_4x4_select_channel::<3>(block)
}

/// Multiplies red, green and blue of each pixel by its alpha.
pub fn pre_multiply_alpha(block: &mut [Rgba8; 16])
    ensures
        forall|i: int| 0 <= i < 16 ==> #[trigger] final(block)@[i] == premultiplied(old(block)@[i]),
{
    let mut i: usize = 0;
    while i < 16
        invariant
            i <= 16,
            forall|j: int| 0 <= j < i ==> #[trigger] block@[j] == premultiplied(old(block)@[j]),
            forall|j: int| i <= j < 16 ==> #[trigger] block@[j] == old(block)@[j],
        decreases 16 - i,
    {
        let p = block[i];
        let a: u32 = p.a as u32;
        assert(p.r * a <= 255 * 255 && p.g * a <= 255 * 255 && p.b * a <= 255 * 255)
            by (nonlinear_arith)
            requires
                a <= 255,
        ;
        block[i] = Rgba8 {
            r: ((p.r as u32 * a + 127) / 255) as u8,
            g: ((p.g as u32 * a + 127) / 255) as u8,
            b: ((p.b as u32 * a + 127) / 255) as u8,
            a: p.a,
        };
        i = i + 1;
    }
}

/// Puts each value in the coding of the format: as a signed byte where
/// `snorm` says so.
fn to_coding(values: [u8; 16], snorm: bool) -> (out: [u8; 16])
    ensures
        out@ == in_coding(values@, snorm),
{
    let mut out: [u8; 16] = values;
    let mut i: usize = 0;
    while i < 16
        invariant
            i <= 16,
            forall|j: int| 0 <= j < i ==> #[trigger] out@[j] == in_coding(values@, snorm)[j],
            forall|j: int| i <= j < 16 ==> #[trigger] out@[j] == values@[j],
        decreases 16 - i,
    {
        if snorm {
            out[i] = ((values[i] as u32 * 127 + 127) / 255) as u8;
        }
        i = i + 1;
    }
    assert(out@ =~= in_coding(values@, snorm));
    out
}

/// The BC4 block for the brightness of the pixels of a block.
pub fn handle_bc4(block: &[Rgba8; 16], options: Bc4Options) -> (out: [u8; 8])
    ensures
        out@ == spec_compress_bc4(in_coding(grayscale_of(block@), options.snorm), options),
{
    let values = to_coding(get_4x4_grayscale(block), options.snorm);
    compress_bc4_block(values, options)
}

/// The BC5 block for the red and the green of the pixels of a block: a BC4
/// block for each, red first.
pub fn handle_bc5(block: &[Rgba8; 16], options: Bc4Options) -> (out: [u8; 16])
    ensures
        out@ == spec_compress_bc4(in_coding(channel_values(block@, 0), options.snorm), options)
            + spec_compress_bc4(in_coding(channel_values(block@, 1), options.snorm), options),
{
    let red_block = to_coding(get_4x4_select_channel::<0>(block), options.snorm);
    let green_block = to_coding(get_4x4_select_channel::<1>(block), options.snorm);
    let red = compress_bc4_block(red_block, options);
    let green = compress_bc4_block(green_block, options);
    concat_blocks(red, green)
}


/// The pixels of a block, each multiplied by its alpha where `premultiply`
/// says so.
pub open spec fn prepared(block: Seq<Rgba8>, premultiply: bool) -> Seq<Rgba8> {
    Seq::new(
        16,
        |i: int|
            if premultiply {
                premultiplied(block[i])
            } else {
                block[i]
            },
    )
}

/// The pixels of a block, each with its alpha dithered to all or nothing
/// where `dither` says so.
pub open spec fn alpha_dithered(block: Seq<Rgba8>, dither: bool) -> Seq<Rgba8> {
    Seq::new(
        16,
        |i: int|
            if dither {
                with_dithered_alpha(block[i], i as nat)
            } else {
                block[i]
            },
    )
}

/// The BC1 block for a block of pixels under `options`.
pub open spec fn spec_encode_bc1(block: Seq<Rgba8>, options: EncodeOptions) -> Seq<u8> {
    spec_compress_bc1(
        alpha_dithered(block, options.dithering.alpha),
        Bc1Options { dither: options.dithering.color, no_default: false },
    )
}

/// The BC2 block for a block of pixels under `options`: explicit alpha,
/// then colors without the transparent mode.
pub open spec fn spec_encode_bc2(block: Seq<Rgba8>, options: EncodeOptions, premultiply: bool) -> Seq<
    u8,
> {
    let pixels = prepared(block, premultiply);
    spec_bc2_alpha(channel_values(pixels, 3), options.dithering.alpha) + spec_compress_bc1(
        pixels,
        Bc1Options { dither: options.dithering.color, no_default: true },
    )
}

/// The BC3 block for a block of pixels under `options`: alpha as a BC4
/// block, then colors without the transparent mode.
pub open spec fn spec_encode_bc3(block: Seq<Rgba8>, options: EncodeOptions, premultiply: bool) -> Seq<
    u8,
> {
    let pixels = prepared(block, premultiply);
    spec_compress_bc4(
        channel_values(pixels, 3),
        Bc4Options { dither: options.dithering.color, snorm: false },
    ) + spec_compress_bc1(
        pixels,
        Bc1Options { dither: options.dithering.color, no_default: true },
    )
}

/// The encoded block of the format for a block of pixels under `options`.
/// A format other than BC1 to BC5 has none.
pub open spec fn spec_encode_block(format: Format, block: Seq<Rgba8>, options: EncodeOptions) -> Seq<
    u8,
> {
    let color = options.dithering.color;
    match format {
        Format::BC1_UNORM => spec_encode_bc1(block, options),
        Format::BC2_UNORM => spec_encode_bc2(block, options, false),
        Format::BC2_UNORM_PREMULTIPLIED_ALPHA => spec_encode_bc2(block, options, true),
        Format::BC3_UNORM => spec_encode_bc3(block, options, false),
        Format::BC3_UNORM_PREMULTIPLIED_ALPHA => spec_encode_bc3(block, options, true),
        Format::BC4_UNORM => spec_compress_bc4(
            in_coding(grayscale_of(block), false),
            Bc4Options { dither: color, snorm: false },
        ),
        Format::BC4_SNORM => spec_compress_bc4(
            in_coding(grayscale_of(block), true),
            Bc4Options { dither: color, snorm: true },
        ),
        Format::BC5_UNORM => spec_compress_bc4(
            in_coding(channel_values(block, 0), false),
            Bc4Options { dither: color, snorm: false },
        ) + spec_compress_bc4(
            in_coding(channel_values(block, 1), false),
            Bc4Options { dither: color, snorm: false },
        ),
        Format::BC5_SNORM => spec_compress_bc4(
            in_coding(channel_values(block, 0), true),
            Bc4Options { dither: color, snorm: true },
        ) + spec_compress_bc4(
            in_coding(channel_values(block, 1), true),
            Bc4Options { dither: color, snorm: true },
        ),
        _ => Seq::<u8>::empty(),
    }
}

/// The first `n` tiles, each encoded as a block of the format, one after
/// the other.
pub open spec fn spec_encode_blocks(
    format: Format,
    tiles: Seq<Seq<Rgba8>>,
    options: EncodeOptions,
    n: nat,
) -> Seq<u8>
    decreases n,
{
    if n == 0 {
        Seq::<u8>::empty()
    } else {
        spec_encode_blocks(format, tiles, options, (n - 1) as nat) + spec_encode_block(
            format,
            tiles[n - 1],
            options,
        )
    }
}

/// An encoded block of one of BC1 to BC5 has the bytes of a block of the
/// format.
pub proof fn lemma_block_len(format: Format, block: Seq<Rgba8>, options: EncodeOptions)
    requires
        format.is_bc1_to_bc5(),
    ensures
        spec_encode_block(format, block, options).len() == format.spec_pixel_info().bytes_per_block,
{
    let color = options.dithering.color;
    let colors = Bc1Options { dither: color, no_default: true };
    let unsigned = Bc4Options { dither: color, snorm: false };
    let signed = Bc4Options { dither: color, snorm: true };
    if format == Format::BC1_UNORM {
        lemma_bc1_len(
            alpha_dithered(block, options.dithering.alpha),
            Bc1Options { dither: color, no_default: false },
        );
    } else if format == Format::BC2_UNORM {
        lemma_bc1_len(prepared(block, false), colors);
    } else if format == Format::BC2_UNORM_PREMULTIPLIED_ALPHA {
        lemma_bc1_len(prepared(block, true), colors);
    } else if format == Format::BC3_UNORM {
        lemma_bc1_len(prepared(block, false), colors);
        lemma_bc4_len(channel_values(prepared(block, false), 3), unsigned);
    } else if format == Format::BC3_UNORM_PREMULTIPLIED_ALPHA {
        lemma_bc1_len(prepared(block, true), colors);
        lemma_bc4_len(channel_values(prepared(block, true), 3), unsigned);
    } else if format == Format::BC4_UNORM {
        lemma_bc4_len(in_coding(grayscale_of(block), false), unsigned);
    } else if format == Format::BC4_SNORM {
        lemma_bc4_len(in_coding(grayscale_of(block), true), signed);
    } else if format == Format::BC5_UNORM {
        lemma_bc4_len(in_coding(channel_values(block, 0), false), unsigned);
        lemma_bc4_len(in_coding(channel_values(block, 1), false), unsigned);
    } else {
        lemma_bc4_len(in_coding(channel_values(block, 0), true), signed);
        lemma_bc4_len(in_coding(channel_values(block, 1), true), signed);
    }
}

/// Encoded blocks take the bytes of a block of the format, each.
pub proof fn lemma_blocks_len(
    format: Format,
    tiles: Seq<Seq<Rgba8>>,
    options: EncodeOptions,
    n: nat,
)
    requires
        format.is_bc1_to_bc5(),
    ensures
        spec_encode_blocks(format, tiles, options, n).len() == n
            * format.spec_pixel_info().bytes_per_block,
    decreases n,
{
    let bytes = format.spec_pixel_info().bytes_per_block as nat;
    if n > 0 {
        lemma_blocks_len(format, tiles, options, (n - 1) as nat);
        lemma_block_len(format, tiles[n - 1], options);
        assert(n * bytes == (n - 1) * bytes + bytes) by (nonlinear_arith)
            requires
                n >= 1,
        ;
    } else {
        assert(0 * bytes == 0) by (nonlinear_arith);
    }
}

/// Dithers the alpha of each pixel of a block to all or nothing.
pub fn dither_alpha(block: &mut [Rgba8; 16])
    ensures
        final(block)@ == alpha_dithered(old(block)@, true),
{
    let mut i: usize = 0;
    while i < 16
        invariant
            i <= 16,
            forall|j: int|
                0 <= j < i ==> #[trigger] block@[j] == with_dithered_alpha(old(block)@[j], j as nat),
            forall|j: int| i <= j < 16 ==> #[trigger] block@[j] == old(block)@[j],
        decreases 16 - i,
    {
        let p = block[i];
        let threshold: u32 = 255 * (2 * (bayer_threshold(i) as u32) + 1);
        block[i] = Rgba8 {
            r: p.r,
            g: p.g,
            b: p.b,
            a: if 32 * (p.a as u32) >= threshold {
                255
            } else {
                0
            },
        };
        i = i + 1;
    }
    assert(block@ =~= alpha_dithered(old(block)@, true));
}

/// Encodes a block of pixels as a BC1 block. A pixel that is less than half
/// opaque becomes transparent; with alpha dithering, a pixel whose alpha
/// is below the threshold of its place.
pub fn encode_bc1(block: &[Rgba8; 16], options: &EncodeOptions) -> (out: [u8; 8])
    ensures
        out@ == spec_encode_bc1(block@, *options),
{
    let bc1_options = get_bc1_options(options);
    let mut pixels = *block;
    if options.dithering.alpha {
        dither_alpha(&mut pixels);
    }
    assert(pixels@ =~= alpha_dithered(block@, options.dithering.alpha));
    compress_bc1_block(pixels, bc1_options)
}

/// The pixels of a block, multiplied by their alpha where `premultiply`
/// says so.
fn prepare(block: &[Rgba8; 16], premultiply: bool) -> (pixels: [Rgba8; 16])
    ensures
        pixels@ == prepared(block@, premultiply),
{
    let mut pixels = *block;
    if premultiply {
        pre_multiply_alpha(&mut pixels);
    }
    assert(pixels@ =~= prepared(block@, premultiply));
    pixels
}

/// Encodes a block of pixels as a BC2 block.
pub fn encode_bc2(block: &[Rgba8; 16], options: &EncodeOptions, premultiply: bool) -> (out: [u8; 16])
    ensures
        out@ == spec_encode_bc2(block@, *options, premultiply),
{
    let (bc1_options, _) = get_bc3_options(options);
    let pixels = prepare(block, premultiply);
    let alpha_block = bc2_alpha(get_alpha(&pixels), options);
    let bc1_block = compress_bc1_block(pixels, bc1_options);
    concat_blocks(alpha_block, bc1_block)
}

/// Encodes a block of pixels as a BC3 block.
pub fn encode_bc3(block: &[Rgba8; 16], options: &EncodeOptions, premultiply: bool) -> (out: [u8; 16])
    ensures
        out@ == spec_encode_bc3(block@, *options, premultiply),
{
    let (bc1_options, bc4_options) = get_bc3_options(options);
    let pixels = prepare(block, premultiply);
    let bc4_block = compress_bc4_block(get_alpha(&pixels), bc4_options);
    let bc1_block = compress_bc1_block(pixels, bc1_options);
    concat_blocks(bc4_block, bc1_block)
}

/// Appends 8 bytes.
fn append8(out: &mut Vec<u8>, bytes: &[u8; 8])
    ensures
        final(out)@ == old(out)@ + bytes@,
{
    let mut i: usize = 0;
    while i < 8
        invariant
            i <= 8,
            out@ == old(out)@ + bytes@.take(i as int),
        decreases 8 - i,
    {
        out.push(bytes[i]);
        assert(out@ =~= old(out)@ + bytes@.take(i + 1));
        i = i + 1;
    }
    assert(bytes@.take(8) =~= bytes@);
}

/// Appends 16 bytes.
fn append16(out: &mut Vec<u8>, bytes: &[u8; 16])
    ensures
        final(out)@ == old(out)@ + bytes@,
{
    let mut i: usize = 0;
    while i < 16
        invariant
            i <= 16,
            out@ == old(out)@ + bytes@.take(i as int),
        decreases 16 - i,
    {
        out.push(bytes[i]);
        assert(out@ =~= old(out)@ + bytes@.take(i + 1));
        i = i + 1;
    }
    assert(bytes@.take(16) =~= bytes@);
}

/// Encodes a block of pixels as a block of the format and appends it to
/// `out`. Says whether the format is one of BC1 to BC5; for another format
/// nothing is appended.
pub fn encode_block(format: Format, block: &[Rgba8; 16], options: &EncodeOptions, out: &mut Vec<u8>) -> (done:
    bool)
    ensures
        done == format.is_bc1_to_bc5(),
        final(out)@ == old(out)@ + spec_encode_block(format, block@, *options),
{
    let mut bc4_options = get_bc4_options(options);
    match format {
        Format::BC1_UNORM => {
            append8(out, &encode_bc1(block, options));
            true
        },
        Format::BC2_UNORM => {
            append16(out, &encode_bc2(block, options, false));
            true
        },
        Format::BC2_UNORM_PREMULTIPLIED_ALPHA => {
            append16(out, &encode_bc2(block, options, true));
            true
        },
        Format::BC3_UNORM => {
            append16(out, &encode_bc3(block, options, false));
            true
        },
        Format::BC3_UNORM_PREMULTIPLIED_ALPHA => {
            append16(out, &encode_bc3(block, options, true));
            true
        },
        Format::BC4_UNORM => {
            bc4_options.snorm = false;
            append8(out, &handle_bc4(block, bc4_options));
            true
        },
        Format::BC4_SNORM => {
            bc4_options.snorm = true;
            append8(out, &handle_bc4(block, bc4_options));
            true
        },
        Format::BC5_UNORM => {
            bc4_options.snorm = false;
            append16(out, &handle_bc5(block, bc4_options));
            true
        },
        Format::BC5_SNORM => {
            bc4_options.snorm = true;
            append16(out, &handle_bc5(block, bc4_options));
            true
        },
        _ => {
            assert(out@ =~= old(out)@ + Seq::<u8>::empty());
            false
        },
    }
}

/// Encodes an image in one of BC1 to BC5: its blocks of 4×4 pixels in the
/// order of `block_universal`, each encoded as a block of the format. The
/// bytes are those of a surface of the size of the image.
///
/// Another format is refused as unsupported by this encoder, and an image
/// without pixels as an empty surface.
pub fn encode_bc_surface<'a>(
    format: Format,
    grid: &PixelGrid<'a, Rgba8>,
    options: &EncodeOptions,
) -> (r: Result<Vec<u8>, EncodeError>)
    ensures
        match r {
            Ok(bytes) => {
                &&& format.is_bc1_to_bc5()
                &&& grid.spec_width() != 0 && grid.spec_height() != 0
                &&& bytes@ == spec_encode_blocks(
                    format,
                    grid.tiles(),
                    *options,
                    grid.tiles().len(),
                )
                &&& bytes@.len() == format.spec_pixel_info().surface_len(
                    grid.spec_width(),
                    grid.spec_height(),
                )
            },
            Err(e) => if !format.is_bc1_to_bc5() {
                e == EncodeError::UnsupportedFormat(format)
            } else {
                e == EncodeError::EmptySurface && (grid.spec_width() == 0 || grid.spec_height()
                    == 0)
            },
        },
{
    let mut out: Vec<u8> = Vec::new();
    let probe = [Rgba8 { r: 0, g: 0, b: 0, a: 0 };16];
    let mut scratch: Vec<u8> = Vec::new();
    if !encode_block(format, &probe, options, &mut scratch) {
        return Err(EncodeError::UnsupportedFormat(format));
    }
    let tiles = match block_universal(grid) {
        Err(e) => {
            return Err(e);
        },
        Ok(tiles) => tiles,
    };
    let mut k: usize = 0;
    while k < tiles.len()
        invariant
            k <= tiles@.len(),
            format.is_bc1_to_bc5(),
            tiles@.len() == grid.tiles().len(),
            forall|j: int| 0 <= j < tiles@.len() ==> (#[trigger] tiles@[j])@ == grid.tiles()[j],
            out@ == spec_encode_blocks(format, grid.tiles(), *options, k as nat),
        decreases tiles@.len() - k,
    {
        let block = &tiles[k];
        encode_block(format, block, options, &mut out);
        k = k + 1;
    }
    proof {
        lemma_blocks_len(format, grid.tiles(), *options, grid.tiles().len());
        lemma_bc_surface_len(format, grid.spec_width(), grid.spec_height());
    }
    Ok(out)
}


/// A color is near another: its red and blue are within 4 and its green
/// within 2 of the other's, which is less than one step of the 5 and 6 bits
/// that a BC1 block has for them.
pub open spec fn color_near(q: Rgba8, p: Rgba8) -> bool {
    &&& -4 <= q.r - p.r <= 4
    &&& -2 <= q.g - p.g <= 2
    &&& -4 <= q.b - p.b <= 4
}

/// What a block of 16 pixels of the color `p` comes back as, from the
/// format: within one step of what the format stores of each channel.
/// BC1, BC2 and BC3 give the color back nearly, BC1 opaque, BC2 with alpha
/// within a step of its 4 bits, BC3 with alpha as it was. BC4 gives the
/// brightness of the color and BC5 its red and green, as they were, or from
/// signed bytes within 1.
pub open spec fn comes_back(format: Format, q: Rgba8, p: Rgba8) -> bool {
    let gray = luminance(p);
    match format {
        Format::BC1_UNORM => color_near(q, p) && q.a == 255,
        Format::BC2_UNORM => color_near(q, p) && -17 < q.a - p.a < 17,
        Format::BC3_UNORM => color_near(q, p) && q.a == p.a,
        Format::BC4_UNORM => q == (Rgba8 { r: gray, g: gray, b: gray, a: 255 }),
        Format::BC4_SNORM => q.r == q.g && q.g == q.b && q.a == 255 && -1 <= q.r - gray <= 1,
        Format::BC5_UNORM => q == (Rgba8 { r: p.r, g: p.g, b: 0, a: 255 }),
        Format::BC5_SNORM => q.b == 0 && q.a == 255 && -1 <= q.r - p.r <= 1 && -1 <= q.g - p.g
            <= 1,
        _ => true,
    }
}

/// The colors of a block of one color come back as that color, nearly,
/// from a block with colors without the transparent mode.
proof fn lemma_uniform_colors(pixels: Seq<Rgba8>, p: Rgba8, dither: bool, i: nat)
    requires
        pixels.len() == 16,
        forall|j: int| 0 <= j < 16 ==> #[trigger] pixels[j] == p,
        i < 16,
    ensures
        ({
            let block = spec_compress_bc1(pixels, Bc1Options { dither, no_default: true });
            let q = bc1_color_pixel(block, i);
            block.len() == 8 && color_near(q, p) && q.a == 255
        }),
{
    let options = Bc1Options { dither, no_default: true };
    lemma_bc1_uniform(pixels, p, options, i);
    let c = rgb565(p.r as nat, p.g as nat, p.b as nat);
    lemma_color_of_rgb565(p.r as nat, p.g as nat, p.b as nat);
    let zeros = Seq::new(16, |j: int| 0u8);
    lemma_bc1_block(c, c, zeros, i);
    let block = spec_compress_bc1(pixels, options);
    assert(block =~= crate::encode::bc1::bc1_block(c, c, zeros));
    assert(bc1_pixel(block, i).r == bc1_color_pixel(block, i).r);
    assert(bc1_pixel(block, i).g == bc1_color_pixel(block, i).g);
    assert(bc1_pixel(block, i).b == bc1_color_pixel(block, i).b);
}

/// A value that is cut down to 4 bits with or without dithering stands
/// for a value within a step of it.
proof fn lemma_n4_within_a_step(a: u8, i: nat, dither: bool)
    requires
        i < 16,
    ensures
        n4_of(a, i, dither) < 16,
        -17 < n4_of(a, i, dither) * 17 - a < 17,
{
    let bias = rounding_bias(i, dither);
    assert(0 <= bias <= 254) by {
        if dither {
            assert(bayer(i) <= 15);
        }
    }
}

/// A brightness or channel that is stored as a signed byte comes back
/// within 1.
proof fn lemma_snorm_within_one(v: u8)
    ensures
        snorm_of(v) <= 127,
        -1 <= out_of_coding(snorm_of(v), true) - v <= 1,
{
}

/// A block of one opaque color comes back from BC1.
proof fn lemma_uniform_bc1(block: Seq<Rgba8>, p: Rgba8, options: EncodeOptions, i: nat)
    requires
        block.len() == 16,
        forall|j: int| 0 <= j < 16 ==> #[trigger] block[j] == p,
        p.a == 255,
        i < 16,
    ensures
        comes_back(
            Format::BC1_UNORM,
            block_pixel(Format::BC1_UNORM, spec_encode_bc1(block, options), i),
            p,
        ),
{
    let pixels = alpha_dithered(block, options.dithering.alpha);
    assert forall|j: int| 0 <= j < 16 implies #[trigger] pixels[j] == p by {
        assert(bayer(j as nat) <= 15);
    }
    lemma_bc1_uniform(pixels, p, Bc1Options { dither: options.dithering.color, no_default: false }, i);
}

/// Two values of 4 bits are found again in the byte that packs them.
proof fn lemma_nibbles(low: nat, high: nat)
    requires
        low < 16,
        high < 16,
    ensures
        low + 16 * high < 256,
        (low + 16 * high) / 1 % 16 == low,
        (low + 16 * high) / 16 % 16 == high,
{
}

/// The alpha of pixel `i` is found again in the alpha half of a BC2 block,
/// cut down to 4 bits.
proof fn lemma_bc2_alpha_of(alpha: Seq<u8>, dither: bool, i: nat)
    requires
        alpha.len() == 16,
        i < 16,
    ensures
        spec_bc2_alpha(alpha, dither).len() == 8,
        spec_bc2_alpha(alpha, dither)[i as int / 2] as nat / (if i % 2 == 0 {
            1nat
        } else {
            16nat
        }) % 16 == n4_of(alpha[i as int], i, dither),
{
    let k = i as int / 2;
    lemma_n4_within_a_step(alpha[2 * k], (2 * k) as nat, dither);
    lemma_n4_within_a_step(alpha[2 * k + 1], (2 * k + 1) as nat, dither);
    let low = n4_of(alpha[2 * k], (2 * k) as nat, dither);
    let high = n4_of(alpha[2 * k + 1], (2 * k + 1) as nat, dither);
    lemma_nibbles(low, high);
    assert(spec_bc2_alpha(alpha, dither)[k] == (low + 16 * high) as u8);
}

/// A block of one color comes back from BC2.
proof fn lemma_uniform_bc2(block: Seq<Rgba8>, p: Rgba8, options: EncodeOptions, i: nat)
    requires
        block.len() == 16,
        forall|j: int| 0 <= j < 16 ==> #[trigger] block[j] == p,
        i < 16,
    ensures
        comes_back(
            Format::BC2_UNORM,
            block_pixel(Format::BC2_UNORM, spec_encode_bc2(block, options, false), i),
            p,
        ),
{
    let color = options.dithering.color;
    let dither = options.dithering.alpha;
    let encoded = spec_encode_bc2(block, options, false);
    let pixels = prepared(block, false);
    assert(forall|j: int| 0 <= j < 16 ==> #[trigger] pixels[j] == p);
    lemma_uniform_colors(pixels, p, color, i);
    let values = channel_values(pixels, 3);
    assert(values[i as int] == p.a);
    let alpha = spec_bc2_alpha(values, dither);
    let colors = spec_compress_bc1(pixels, Bc1Options { dither: color, no_default: true });
    lemma_bc2_alpha_of(values, dither, i);
    lemma_n4_within_a_step(p.a, i, dither);
    assert(encoded == alpha + colors);
    assert(encoded.skip(8) =~= colors);
    assert(encoded[i as int / 2] == alpha[i as int / 2]);
}

/// A block of one color comes back from BC3.
proof fn lemma_uniform_bc3(block: Seq<Rgba8>, p: Rgba8, options: EncodeOptions, i: nat)
    requires
        block.len() == 16,
        forall|j: int| 0 <= j < 16 ==> #[trigger] block[j] == p,
        i < 16,
    ensures
        comes_back(
            Format::BC3_UNORM,
            block_pixel(Format::BC3_UNORM, spec_encode_bc3(block, options, false), i),
            p,
        ),
{
    let color = options.dithering.color;
    let unsigned = Bc4Options { dither: color, snorm: false };
    let encoded = spec_encode_bc3(block, options, false);
    let pixels = prepared(block, false);
    assert(forall|j: int| 0 <= j < 16 ==> #[trigger] pixels[j] == p);
    lemma_uniform_colors(pixels, p, color, i);
    let values = channel_values(pixels, 3);
    lemma_bc4_uniform(values, p.a, unsigned, i);
    lemma_bc4_len(values, unsigned);
    let alpha = spec_compress_bc4(values, unsigned);
    let colors = spec_compress_bc1(pixels, Bc1Options { dither: color, no_default: true });
    assert(encoded == alpha + colors);
    assert(encoded.skip(8) =~= colors);
    lemma_bc4_reads_eight(alpha, colors, i);
}

/// A block of one color comes back from BC4 as its brightness.
proof fn lemma_uniform_bc4(block: Seq<Rgba8>, p: Rgba8, dither: bool, snorm: bool, i: nat)
    requires
        block.len() == 16,
        forall|j: int| 0 <= j < 16 ==> #[trigger] block[j] == p,
        i < 16,
    ensures
        ({
            let format = if snorm {
                Format::BC4_SNORM
            } else {
                Format::BC4_UNORM
            };
            comes_back(
                format,
                block_pixel(
                    format,
                    spec_compress_bc4(
                        in_coding(grayscale_of(block), snorm),
                        Bc4Options { dither, snorm },
                    ),
                    i,
                ),
                p,
            )
        }),
{
    let gray = luminance(p);
    lemma_snorm_within_one(gray);
    let values = in_coding(grayscale_of(block), snorm);
    let v = if snorm {
        snorm_of(gray)
    } else {
        gray
    };
    assert(forall|j: int| 0 <= j < 16 ==> #[trigger] values[j] == v);
    lemma_bc4_uniform(values, v, Bc4Options { dither, snorm }, i);
}

/// A block of one color comes back from BC5 as its red and green.
proof fn lemma_uniform_bc5(block: Seq<Rgba8>, p: Rgba8, dither: bool, snorm: bool, i: nat)
    requires
        block.len() == 16,
        forall|j: int| 0 <= j < 16 ==> #[trigger] block[j] == p,
        i < 16,
    ensures
        ({
            let format = if snorm {
                Format::BC5_SNORM
            } else {
                Format::BC5_UNORM
            };
            let options = Bc4Options { dither, snorm };
            comes_back(
                format,
                block_pixel(
                    format,
                    spec_compress_bc4(in_coding(channel_values(block, 0), snorm), options)
                        + spec_compress_bc4(in_coding(channel_values(block, 1), snorm), options),
                    i,
                ),
                p,
            )
        }),
{
    let options = Bc4Options { dither, snorm };
    lemma_snorm_within_one(p.r);
    lemma_snorm_within_one(p.g);
    let red = in_coding(channel_values(block, 0), snorm);
    let green = in_coding(channel_values(block, 1), snorm);
    let r = if snorm {
        snorm_of(p.r)
    } else {
        p.r
    };
    let g = if snorm {
        snorm_of(p.g)
    } else {
        p.g
    };
    assert(forall|j: int| 0 <= j < 16 ==> #[trigger] red[j] == r);
    assert(forall|j: int| 0 <= j < 16 ==> #[trigger] green[j] == g);
    lemma_bc4_uniform(red, r, options, i);
    lemma_bc4_uniform(green, g, options, i);
    lemma_bc4_len(red, options);
    let first = spec_compress_bc4(red, options);
    let second = spec_compress_bc4(green, options);
    assert((first + second).skip(8) =~= second);
    lemma_bc4_reads_eight(first, second, i);
}

/// A block of 16 pixels of one color, encoded in one of the formats BC1 to
/// BC5 that store colors as they are, decodes to pixels within one step of
/// what the format stores of them. For BC1 the pixels are opaque.
pub proof fn lemma_uniform_block_comes_back(
    format: Format,
    block: Seq<Rgba8>,
    p: Rgba8,
    options: EncodeOptions,
    i: nat,
)
    requires
        format.is_bc1_to_bc5(),
        !is_premultiplied(format),
        block.len() == 16,
        forall|j: int| 0 <= j < 16 ==> #[trigger] block[j] == p,
        format == Format::BC1_UNORM ==> p.a == 255,
        i < 16,
    ensures
        comes_back(format, block_pixel(format, spec_encode_block(format, block, options), i), p),
{
    let color = options.dithering.color;
    if format == Format::BC1_UNORM {
        lemma_uniform_bc1(block, p, options, i);
    } else if format == Format::BC2_UNORM {
        lemma_uniform_bc2(block, p, options, i);
    } else if format == Format::BC3_UNORM {
        lemma_uniform_bc3(block, p, options, i);
    } else if format == Format::BC4_UNORM {
        lemma_uniform_bc4(block, p, color, false, i);
    } else if format == Format::BC4_SNORM {
        lemma_uniform_bc4(block, p, color, true, i);
    } else if format == Format::BC5_UNORM {
        lemma_uniform_bc5(block, p, color, false, i);
    } else {
        lemma_uniform_bc5(block, p, color, true, i);
    }
}

/// The values of a BC4 block are read from its 8 bytes, whatever follows
/// them.
proof fn lemma_bc4_reads_eight(block: Seq<u8>, rest: Seq<u8>, i: nat)
    requires
        block.len() == 8,
        i < 16,
    ensures
        bc4_value(block + rest, i, false) == bc4_value(block, i, false),
        bc4_value(block + rest, i, true) == bc4_value(block, i, true),
{
    let both = block + rest;
    assert(forall|k: int| 0 <= k < 8 ==> both[k] == block[k]);
    let g = i / 8;
    assert(crate::decode::bc::bc4_group(both, g) == crate::decode::bc::bc4_group(block, g));
}

} // verus!
