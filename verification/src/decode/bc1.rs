//! What the bytes of a BC1 block mean, and the decoder of such blocks.
//!
//! A BC1 block holds two colors of 16 bits, five bits of red, six of green
//! and five of blue, and 16 indices of 2 bits. The two colors span a
//! palette of four colors; each index picks the color of a pixel from it.

use vstd::prelude::*;

use crate::grid::Rgba8;

verus! {

/// The 8-bit value that the 5-bit value `v` stands for: `v / 31` of 255,
/// rounded to the nearest.
pub open spec fn expand5(v: nat) -> nat {
    (v * 255 + 15) / 31
}

/// The 8-bit value that the 6-bit value `v` stands for.
pub open spec fn expand6(v: nat) -> nat {
    (v * 255 + 31) / 63
}

/// The 5-bit value that is nearest to the 8-bit value `v`.
pub open spec fn quantize5(v: nat) -> nat {
    (v * 31 + 127) / 255
}

/// The 6-bit value that is nearest to the 8-bit value `v`.
pub open spec fn quantize6(v: nat) -> nat {
    (v * 63 + 127) / 255
}

/// The red, green and blue of a 16-bit color, each as an 8-bit value.
pub open spec fn color_of(c: nat) -> (nat, nat, nat) {
    (expand5(c / 2048 % 32), expand6(c / 32 % 64), expand5(c % 32))
}

/// The 16-bit color that is nearest to a color of 8-bit channels.
pub open spec fn rgb565(r: nat, g: nat, b: nat) -> nat {
    quantize5(r) * 2048 + quantize6(g) * 32 + quantize5(b)
}

/// The first color of a block.
pub open spec fn bc1_color0(block: Seq<u8>) -> nat {
    block[0] as nat + 256 * (block[1] as nat)
}

/// The second color of a block.
pub open spec fn bc1_color1(block: Seq<u8>) -> nat {
    block[2] as nat + 256 * (block[3] as nat)
}

/// The place value of field `j` among the four fields of 2 bits that a
/// byte holds: 4 to the power of `j`.
pub open spec fn pow4(j: nat) -> nat {
    if j == 0 {
        1
    } else if j == 1 {
        4
    } else if j == 2 {
        16
    } else {
        64
    }
}

/// The index of pixel `i` of a block.
pub open spec fn bc1_index(block: Seq<u8>, i: nat) -> nat {
    block[4 + i as int / 4] as nat / pow4(i % 4) % 4
}

/// A channel of entry `index` of the palette that spans from `a`, the
/// channel of the first color, to `b`, that of the second. With four
/// colors the entries 2 and 3 lie at one and at two thirds of the way;
/// with three colors entry 2 lies half way. Entry 3 of a palette of three
/// colors is no color.
pub open spec fn bc1_mix(a: nat, b: nat, four: bool, index: nat) -> nat {
    if index == 0 {
        a
    } else if index == 1 {
        b
    } else if four {
        if index == 2 {
            (2 * a + b + 1) / 3
        } else {
            (a + 2 * b + 1) / 3
        }
    } else if index == 2 {
        (a + b + 1) / 2
    } else {
        0
    }
}

/// Entry `index` of the palette of the colors `c0` and `c1`. The palette
/// has four colors where the first color is the greater number, else
/// three colors and, as entry 3, transparent black.
pub open spec fn bc1_palette(c0: nat, c1: nat, index: nat) -> Rgba8 {
    let four = c0 > c1;
    let p0 = color_of(c0);
    let p1 = color_of(c1);
    Rgba8 {
        r: bc1_mix(p0.0, p1.0, four, index) as u8,
        g: bc1_mix(p0.1, p1.1, four, index) as u8,
        b: bc1_mix(p0.2, p1.2, four, index) as u8,
        a: if !four && index == 3 {
            0
        } else {
            255
        },
    }
}

/// The color of pixel `i` of a block.
pub open spec fn bc1_pixel(block: Seq<u8>, i: nat) -> Rgba8 {
    bc1_palette(bc1_color0(block), bc1_color1(block), bc1_index(block, i))
}

/// The 8-bit value that a 5-bit value stands for.
pub(crate) fn expand5_of(v: u32) -> (r: u32)
    requires
        v < 32,
    ensures
        r == expand5(v as nat),
        r <= 255,
{
    (v * 255 + 15) / 31
}

/// The 8-bit value that a 6-bit value stands for.
pub(crate) fn expand6_of(v: u32) -> (r: u32)
    requires
        v < 64,
    ensures
        r == expand6(v as nat),
        r <= 255,
{
    (v * 255 + 31) / 63
}

/// A channel of an entry of a palette.
fn mix(a: u32, b: u32, four: bool, index: u32) -> (r: u32)
    requires
        a <= 255,
        b <= 255,
        index < 4,
    ensures
        r == bc1_mix(a as nat, b as nat, four, index as nat),
        r <= 255,
{
    if index == 0 {
        a
    } else if index == 1 {
        b
    } else if four {
        if index == 2 {
            (2 * a + b + 1) / 3
        } else {
            (a + 2 * b + 1) / 3
        }
    } else if index == 2 {
        (a + b + 1) / 2
    } else {
        0
    }
}

/// Entry `index` of the palette of the colors `c0` and `c1`.
fn palette_entry(c0: u16, c1: u16, index: u32) -> (p: Rgba8)
    requires
        index < 4,
    ensures
        p == bc1_palette(c0 as nat, c1 as nat, index as nat),
{
    let four = c0 > c1;
    let x: u32 = c0 as u32;
    let y: u32 = c1 as u32;
    let r = mix(expand5_of(x / 2048 % 32), expand5_of(y / 2048 % 32), four, index);
    let g = mix(expand6_of(x / 32 % 64), expand6_of(y / 32 % 64), four, index);
    let b = mix(expand5_of(x % 32), expand5_of(y % 32), four, index);
    Rgba8 {
        r: r as u8,
        g: g as u8,
        b: b as u8,
        a: if !four && index == 3 {
            0
        } else {
            255
        },
    }
}

/// The place value of field `j` of a byte.
fn pow4_of(j: usize) -> (p: u8)
    requires
        j < 4,
    ensures
        p == pow4(j as nat),
{
    if j == 0 {
        1
    } else if j == 1 {
        4
    } else if j == 2 {
        16
    } else {
        64
    }
}

/// Decodes a BC1 block: the colors of its 16 pixels, row by row.
pub fn decompress_bc1_block(block: [u8; 8]) -> (out: [Rgba8; 16])
    ensures
        forall|i: int| 0 <= i < 16 ==> #[trigger] out@[i] == bc1_pixel(block@, i as nat),
{
    let c0: u16 = block[0] as u16 + 256 * (block[1] as u16);
    let c1: u16 = block[2] as u16 + 256 * (block[3] as u16);
    let mut out: [Rgba8; 16] = [Rgba8 { r: 0, g: 0, b: 0, a: 0 };16];
    let mut i: usize = 0;
    while i < 16
        invariant
            i <= 16,
            c0 == bc1_color0(block@),
            c1 == bc1_color1(block@),
            forall|j: int| 0 <= j < i ==> #[trigger] out@[j] == bc1_pixel(block@, j as nat),
        decreases 16 - i,
    {
        let index: u8 = block[4 + i / 4] / pow4_of(i % 4) % 4;
        out[i] = palette_entry(c0, c1, index as u32);
        i = i + 1;
    }
    out
}

/// An 8-bit value is never further from what its 5-bit value stands for
/// than 4, nor from what its 6-bit value stands for than 2: less than one
/// step of the 5-bit and of the 6-bit values. And a 5-bit or 6-bit value is
/// found again from the 8-bit value that it stands for.
pub proof fn lemma_quantize_bounds(v: nat, q5: nat, q6: nat)
    requires
        v <= 255,
        q5 < 32,
        q6 < 64,
    ensures
        quantize5(v) < 32,
        quantize6(v) < 64,
        -4 <= expand5(quantize5(v)) - v <= 4,
        -2 <= expand6(quantize6(v)) - v <= 2,
        quantize5(expand5(q5)) == q5,
        quantize6(expand6(q6)) == q6,
{
}


/// Entry `index` of the palette of the colors `c0` and `c1` in a block
/// that has no entry without a color, as the color blocks of BC2 and BC3:
/// always four colors.
pub open spec fn bc1_palette_of_four(c0: nat, c1: nat, index: nat) -> Rgba8 {
    let p0 = color_of(c0);
    let p1 = color_of(c1);
    Rgba8 {
        r: bc1_mix(p0.0, p1.0, true, index) as u8,
        g: bc1_mix(p0.1, p1.1, true, index) as u8,
        b: bc1_mix(p0.2, p1.2, true, index) as u8,
        a: 255,
    }
}

/// The color of pixel `i` of the color block of a BC2 or BC3 block.
pub open spec fn bc1_color_pixel(block: Seq<u8>, i: nat) -> Rgba8 {
    bc1_palette_of_four(bc1_color0(block), bc1_color1(block), bc1_index(block, i))
}

/// Decodes the color block of a BC2 or BC3 block: the colors of its 16
/// pixels, all opaque.
pub fn decompress_color_block(block: [u8; 8]) -> (out: [Rgba8; 16])
    ensures
        forall|i: int| 0 <= i < 16 ==> #[trigger] out@[i] == bc1_color_pixel(block@, i as nat),
{
    let c0: u32 = block[0] as u32 + 256 * (block[1] as u32);
    let c1: u32 = block[2] as u32 + 256 * (block[3] as u32);
    let r0 = expand5_of(c0 / 2048 % 32);
    let g0 = expand6_of(c0 / 32 % 64);
    let b0 = expand5_of(c0 % 32);
    let r1 = expand5_of(c1 / 2048 % 32);
    let g1 = expand6_of(c1 / 32 % 64);
    let b1 = expand5_of(c1 % 32);
    let mut out: [Rgba8; 16] = [Rgba8 { r: 0, g: 0, b: 0, a: 0 };16];
    let mut i: usize = 0;
    while i < 16
        invariant
            i <= 16,
            c0 == bc1_color0(block@),
            c1 == bc1_color1(block@),
            (r0 as nat, g0 as nat, b0 as nat) == color_of(c0 as nat),
            (r1 as nat, g1 as nat, b1 as nat) == color_of(c1 as nat),
            r0 <= 255 && g0 <= 255 && b0 <= 255 && r1 <= 255 && g1 <= 255 && b1 <= 255,
            forall|j: int| 0 <= j < i ==> #[trigger] out@[j] == bc1_color_pixel(block@, j as nat),
        decreases 16 - i,
    {
        let index: u32 = (block[4 + i / 4] / pow4_of(i % 4) % 4) as u32;
        out[i] = Rgba8 {
            r: mix(r0, r1, true, index) as u8,
            g: mix(g0, g1, true, index) as u8,
            b: mix(b0, b1, true, index) as u8,
            a: 255,
        };
        i = i + 1;
    }
    out
}

} // verus!
