//! The encoder of BC1 blocks.
//!
//! The two colors of a block are two opposite corners of the box that holds
//! the colors of its opaque pixels, each cut down to 16 bits: the corners
//! along which the colors spread, which the channels tell that rise and
//! fall together. A pixel gets the entry of the palette that is nearest to
//! the place of its color on the line between the two corners; with
//! dithering a pixel between two entries gets one or the other, as the
//! threshold of its place in the block decides. A pixel that is less than
//! half opaque gets the entry that is no color, in a palette of three
//! colors.

use vstd::prelude::*;

use crate::decode::bc1::{
    bc1_color0, bc1_color1, bc1_index, bc1_pixel, color_of, expand5, expand5_of, expand6,
    expand6_of, lemma_quantize_bounds, pow4, quantize5, quantize6, rgb565,
};
use crate::encode::bc::{bayer, bayer_threshold, Bc1Options};
use crate::grid::Rgba8;

verus! {

/// The byte that packs the four indices of row `r` of a block, the first
/// index lowest.
pub open spec fn bc1_row_of(indices: Seq<u8>, r: nat) -> nat {
    let at = 4 * r as int;
    indices[at] as nat + 4 * (indices[at + 1] as nat) + 16 * (indices[at + 2] as nat) + 64 * (
    indices[at + 3] as nat)
}

/// The block with the given colors and indices.
pub open spec fn bc1_block(c0: nat, c1: nat, indices: Seq<u8>) -> Seq<u8> {
    seq![
        (c0 % 256) as u8,
        (c0 / 256) as u8,
        (c1 % 256) as u8,
        (c1 / 256) as u8,
        bc1_row_of(indices, 0) as u8,
        bc1_row_of(indices, 1) as u8,
        bc1_row_of(indices, 2) as u8,
        bc1_row_of(indices, 3) as u8,
    ]
}

/// Four fields of 2 bits are found again in the byte that packs them.
pub proof fn lemma_row_fields(d0: nat, d1: nat, d2: nat, d3: nat)
    requires
        d0 < 4,
        d1 < 4,
        d2 < 4,
        d3 < 4,
    ensures
        ({
            let v = d0 + 4 * d1 + 16 * d2 + 64 * d3;
            &&& v < 256
            &&& v / 1 % 4 == d0
            &&& v / 4 % 4 == d1
            &&& v / 16 % 4 == d2
            &&& v / 64 % 4 == d3
        }),
{
    let v2 = d2 + 4 * d3;
    let v1 = d1 + 4 * v2;
    let v = d0 + 4 * v1;
    assert(v / 4 == v1 && v % 4 == d0);
    assert(v1 / 4 == v2 && v1 % 4 == d1);
    assert(v2 / 4 == d3 && v2 % 4 == d2);
    assert(v == 16 * v2 + (4 * d1 + d0));
    assert(v / 16 == v2);
    assert(v == 64 * d3 + (16 * d2 + 4 * d1 + d0));
    assert(v / 64 == d3);
}

/// A 16-bit number is found again in its two bytes.
pub proof fn lemma_two_bytes(c: nat)
    requires
        c < 0x1_0000,
    ensures
        c / 256 < 256,
        c % 256 + 256 * (c / 256) == c,
{
}

/// The colors and each index of a block are found again in its bytes.
pub proof fn lemma_bc1_block(c0: nat, c1: nat, indices: Seq<u8>, i: nat)
    requires
        c0 < 0x1_0000,
        c1 < 0x1_0000,
        indices.len() == 16,
        forall|j: int| 0 <= j < 16 ==> indices[j] < 4,
        i < 16,
    ensures
        bc1_block(c0, c1, indices).len() == 8,
        bc1_color0(bc1_block(c0, c1, indices)) == c0,
        bc1_color1(bc1_block(c0, c1, indices)) == c1,
        bc1_index(bc1_block(c0, c1, indices), i) == indices[i as int],
{
    let block = bc1_block(c0, c1, indices);
    lemma_two_bytes(c0);
    lemma_two_bytes(c1);
    assert(block[0] == c0 % 256 && block[1] == c0 / 256);
    assert(block[2] == c1 % 256 && block[3] == c1 / 256);
    let r = i / 4;
    let j = i % 4;
    let at = 4 * r as int;
    let d0 = indices[at] as nat;
    let d1 = indices[at + 1] as nat;
    let d2 = indices[at + 2] as nat;
    let d3 = indices[at + 3] as nat;
    lemma_row_fields(d0, d1, d2, d3);
    let v = d0 + 4 * d1 + 16 * d2 + 64 * d3;
    assert(bc1_row_of(indices, r) == v);
    assert(block[4 + r as int] == v) by {
        if r == 0 {
            assert(block[4] == bc1_row_of(indices, 0) as u8);
        } else if r == 1 {
            assert(block[5] == bc1_row_of(indices, 1) as u8);
        } else if r == 2 {
            assert(block[6] == bc1_row_of(indices, 2) as u8);
        } else {
            assert(block[7] == bc1_row_of(indices, 3) as u8);
        }
    }
    assert(i == at + j);
    if j == 0 {
        assert(v / pow4(0) % 4 == d0);
    } else if j == 1 {
        assert(v / pow4(1) % 4 == d1);
    } else if j == 2 {
        assert(v / pow4(2) % 4 == d2);
    } else {
        assert(v / pow4(3) % 4 == d3);
    }
}

/// Packs colors and indices into the bytes of a block.
pub fn pack_bc1(c0: u16, c1: u16, indices: &[u8; 16]) -> (out: [u8; 8])
    requires
        forall|j: int| 0 <= j < 16 ==> indices@[j] < 4,
    ensures
        out@ == bc1_block(c0 as nat, c1 as nat, indices@),
{
    let out = [
        (c0 % 256) as u8,
        (c0 / 256) as u8,
        (c1 % 256) as u8,
        (c1 / 256) as u8,
        indices[0] + 4 * indices[1] + 16 * indices[2] + 64 * indices[3],
        indices[4] + 4 * indices[5] + 16 * indices[6] + 64 * indices[7],
        indices[8] + 4 * indices[9] + 16 * indices[10] + 64 * indices[11],
        indices[12] + 4 * indices[13] + 16 * indices[14] + 64 * indices[15],
    ];
    assert(out@ =~= bc1_block(c0 as nat, c1 as nat, indices@));
    out
}

/// The pixel counts as opaque: it is at least half opaque, or the block
/// has no entry that is no color.
pub open spec fn is_opaque(p: Rgba8, options: Bc1Options) -> bool {
    options.no_default || p.a >= 128
}

/// The box that holds the colors of the opaque pixels among some pixels,
/// and whether there are opaque pixels and others among them.
#[derive(Debug, Clone, Copy, PartialEq, Eq)]
pub struct Bounds {
    pub any_opaque: bool,
    pub any_clear: bool,
    /// The lowest red, green and blue.
    pub low: (u8, u8, u8),
    /// The highest red, green and blue.
    pub high: (u8, u8, u8),
}

/// The lesser of two bytes.
pub open spec fn lesser(a: u8, b: u8) -> u8 {
    if a < b {
        a
    } else {
        b
    }
}

/// The greater of two bytes.
pub open spec fn greater(a: u8, b: u8) -> u8 {
    if a > b {
        a
    } else {
        b
    }
}

impl Bounds {
    /// The bounds of no pixels.
    pub open spec fn empty() -> Bounds {
        Bounds {
            any_opaque: false,
            any_clear: false,
            low: (255u8, 255u8, 255u8),
            high: (0u8, 0u8, 0u8),
        }
    }

    /// The bounds of the pixels of `self` and the pixel `p`.
    pub open spec fn with(self, p: Rgba8, options: Bc1Options) -> Bounds {
        if is_opaque(p, options) {
            Bounds {
                any_opaque: true,
                any_clear: self.any_clear,
                low: (lesser(self.low.0, p.r), lesser(self.low.1, p.g), lesser(self.low.2, p.b)),
                high: (
                    greater(self.high.0, p.r),
                    greater(self.high.1, p.g),
                    greater(self.high.2, p.b),
                ),
            }
        } else {
            Bounds { any_clear: true, ..self }
        }
    }

    /// The bounds of the first `n` pixels.
    pub open spec fn of(pixels: Seq<Rgba8>, options: Bc1Options, n: nat) -> Bounds
        decreases n,
    {
        if n == 0 {
            Self::empty()
        } else {
            Self::of(pixels, options, (n - 1) as nat).with(pixels[n - 1], options)
        }
    }

    /// The bounds with one more pixel.
    pub fn add(self, p: Rgba8, options: Bc1Options) -> (b: Bounds)
        ensures
            b == self.with(p, options),
    {
        if options.no_default || p.a >= 128 {
            Bounds {
                any_opaque: true,
                any_clear: self.any_clear,
                low: (
                    if self.low.0 < p.r {
                        self.low.0
                    } else {
                        p.r
                    },
                    if self.low.1 < p.g {
                        self.low.1
                    } else {
                        p.g
                    },
                    if self.low.2 < p.b {
                        self.low.2
                    } else {
                        p.b
                    },
                ),
                high: (
                    if self.high.0 > p.r {
                        self.high.0
                    } else {
                        p.r
                    },
                    if self.high.1 > p.g {
                        self.high.1
                    } else {
                        p.g
                    },
                    if self.high.2 > p.b {
                        self.high.2
                    } else {
                        p.b
                    },
                ),
            }
        } else {
            Bounds {
                any_opaque: self.any_opaque,
                any_clear: true,
                low: self.low,
                high: self.high,
            }
        }
    }
}

/// Channel `channel` of a color of three channels.
pub open spec fn part(c: (u8, u8, u8), channel: nat) -> u8 {
    if channel == 0 {
        c.0
    } else if channel == 1 {
        c.1
    } else {
        c.2
    }
}

/// Channel `channel` of a pixel: red, green, blue.
pub open spec fn part_of(p: Rgba8, channel: nat) -> u8 {
    if channel == 0 {
        p.r
    } else if channel == 1 {
        p.g
    } else {
        p.b
    }
}

impl Bounds {
    /// The channel in which the box is widest; of two that are equally
    /// wide, the earlier one.
    pub open spec fn widest(self) -> nat {
        let r = self.high.0 - self.low.0;
        let g = self.high.1 - self.low.1;
        let b = self.high.2 - self.low.2;
        if r >= g && r >= b {
            0
        } else if g >= b {
            1
        } else {
            2
        }
    }

    /// How far a pixel lies from the middle of the box in a channel, twice.
    pub open spec fn off_center(self, p: Rgba8, channel: nat) -> int {
        2 * part_of(p, channel) - (part(self.low, channel) + part(self.high, channel))
    }

    /// How the channel `channel` goes with the widest channel, over the
    /// opaque ones of the first `n` pixels: above 0 where it mostly rises
    /// with it, below 0 where it mostly falls.
    pub open spec fn lean(self, pixels: Seq<Rgba8>, options: Bc1Options, channel: nat, n: nat) -> int
        decreases n,
    {
        if n == 0 {
            0
        } else {
            let p = pixels[n - 1];
            self.lean(pixels, options, channel, (n - 1) as nat) + if is_opaque(p, options) {
                self.off_center(p, self.widest()) * self.off_center(p, channel)
            } else {
                0
            }
        }
    }

    /// One end of the line along which the colors spread: the corner of the
    /// box that is low in the widest channel, and low in each other channel
    /// that does not fall where the widest rises.
    pub open spec fn near_end(self, falls: (bool, bool, bool)) -> (u8, u8, u8) {
        (
            if falls.0 {
                self.high.0
            } else {
                self.low.0
            },
            if falls.1 {
                self.high.1
            } else {
                self.low.1
            },
            if falls.2 {
                self.high.2
            } else {
                self.low.2
            },
        )
    }

    /// The other end of the line: the opposite corner of the box.
    pub open spec fn far_end(self, falls: (bool, bool, bool)) -> (u8, u8, u8) {
        (
            if falls.0 {
                self.low.0
            } else {
                self.high.0
            },
            if falls.1 {
                self.low.1
            } else {
                self.high.1
            },
            if falls.2 {
                self.low.2
            } else {
                self.high.2
            },
        )
    }
}

/// Which channels fall where the widest channel of the box rises.
pub open spec fn falling(pixels: Seq<Rgba8>, options: Bc1Options) -> (bool, bool, bool) {
    let bounds = Bounds::of(pixels, options, 16);
    (
        bounds.lean(pixels, options, 0, 16) < 0,
        bounds.lean(pixels, options, 1, 16) < 0,
        bounds.lean(pixels, options, 2, 16) < 0,
    )
}

/// The two ends of the line of a block as 16-bit colors, the lesser number
/// first.
pub open spec fn end_colors(pixels: Seq<Rgba8>, options: Bc1Options) -> (nat, nat) {
    let bounds = Bounds::of(pixels, options, 16);
    let falls = falling(pixels, options);
    let near = bounds.near_end(falls);
    let far = bounds.far_end(falls);
    let a = rgb565(near.0 as nat, near.1 as nat, near.2 as nat);
    let b = rgb565(far.0 as nat, far.1 as nat, far.2 as nat);
    if a <= b {
        (a, b)
    } else {
        (b, a)
    }
}

/// The palette of a block has three colors: a pixel needs the entry that
/// is no color, or the two ends of the line are the same 16-bit color.
pub open spec fn three_colors(pixels: Seq<Rgba8>, options: Bc1Options) -> bool {
    Bounds::of(pixels, options, 16).any_clear || end_colors(pixels, options).0 == end_colors(
        pixels,
        options,
    ).1
}

/// What is added to the place of a pixel, in 32nds of a step of the
/// palette, before it is cut down to a whole number of steps.
pub open spec fn bc1_bias(i: nat, dither: bool) -> int {
    if dither {
        (2 * bayer(i) + 1) as int
    } else {
        16
    }
}

/// How far the color `p` lies along the line from the color `low` to the
/// color `high`, as a product: the length of the line times the length of
/// the shadow of `p - low` on it.
pub open spec fn along(p: Rgba8, low: (nat, nat, nat), high: (nat, nat, nat)) -> int {
    (p.r - low.0) * (high.0 - low.0) + (p.g - low.1) * (high.1 - low.1) + (p.b - low.2) * (high.2
        - low.2)
}

/// The length of the line from the color `low` to the color `high`,
/// squared.
pub open spec fn span(low: (nat, nat, nat), high: (nat, nat, nat)) -> int {
    (high.0 - low.0) * (high.0 - low.0) + (high.1 - low.1) * (high.1 - low.1) + (high.2 - low.2)
        * (high.2 - low.2)
}

/// The step of the palette that a pixel of the color `p` gets, where the
/// palette divides the line from `low` to `high` in `steps` steps: the
/// step nearest to the foot of `p` on the line, held to the line.
pub open spec fn bc1_step(
    p: Rgba8,
    low: (nat, nat, nat),
    high: (nat, nat, nat),
    steps: int,
    bias: int,
) -> int {
    let len = span(low, high);
    let num = steps * 32 * along(p, low, high) + bias * len;
    if len == 0 || num < 0 {
        0
    } else if num / (32 * len) > steps {
        steps
    } else {
        num / (32 * len)
    }
}

/// The index of the palette entry that lies `step` steps above the low
/// corner. With three colors the first color is the low corner, and the
/// entries 0, 2, 1 lead up from it; with four colors the first color is the
/// high corner, and the entries 1, 3, 2, 0 lead up to it.
pub open spec fn bc1_step_index(step: int, three: bool) -> u8 {
    if three {
        if step <= 0 {
            0
        } else if step == 1 {
            2
        } else {
            1
        }
    } else {
        if step <= 0 {
            1
        } else if step == 1 {
            3
        } else if step == 2 {
            2
        } else {
            0
        }
    }
}

/// The index that pixel `i` gets.
#[verifier::opaque]
pub open spec fn bc1_choice(pixels: Seq<Rgba8>, options: Bc1Options, i: nat) -> u8 {
    let p = pixels[i as int];
    if !is_opaque(p, options) {
        3
    } else {
        let three = three_colors(pixels, options);
        let ends = end_colors(pixels, options);
        bc1_step_index(
            bc1_step(
                p,
                color_of(ends.0),
                color_of(ends.1),
                if three {
                    2
                } else {
                    3
                },
                bc1_bias(i, options.dither),
            ),
            three,
        )
    }
}

/// The block that encodes 16 pixels. A block without opaque pixels has two
/// colors of 0 and no pixel with a color. Else its colors are the two ends
/// of the line: the lesser number first in a palette of three colors, the
/// greater first in a palette of four.
pub open spec fn spec_compress_bc1(pixels: Seq<Rgba8>, options: Bc1Options) -> Seq<u8> {
    let bounds = Bounds::of(pixels, options, 16);
    let ends = end_colors(pixels, options);
    let indices = Seq::new(16, |i: int| bc1_choice(pixels, options, i as nat));
    if !bounds.any_opaque {
        bc1_block(0, 0, indices)
    } else if three_colors(pixels, options) {
        bc1_block(ends.0, ends.1, indices)
    } else {
        bc1_block(ends.1, ends.0, indices)
    }
}

/// The 16-bit color that is nearest to a color of 8-bit channels.
pub fn rgb565_of(c: (u8, u8, u8)) -> (r: u16)
    ensures
        r == rgb565(c.0 as nat, c.1 as nat, c.2 as nat),
{
    let r5: u32 = (c.0 as u32 * 31 + 127) / 255;
    let g6: u32 = (c.1 as u32 * 63 + 127) / 255;
    let b5: u32 = (c.2 as u32 * 31 + 127) / 255;
    (r5 * 2048 + g6 * 32 + b5) as u16
}

/// The red, green and blue of a 16-bit color, each as an 8-bit value.
pub fn color_of_565(c: u16) -> (r: (u8, u8, u8))
    ensures
        (r.0 as nat, r.1 as nat, r.2 as nat) == color_of(c as nat),
{
    let x: u32 = c as u32;
    (
        expand5_of(x / 2048 % 32) as u8,
        expand6_of(x / 32 % 64) as u8,
        expand5_of(x % 32) as u8,
    )
}

/// The product of two differences of bytes.
fn product(a: u8, b: u8, c: u8, d: u8) -> (r: i64)
    ensures
        r == (a - b) * (c - d),
        -65025 <= r <= 65025,
{
    let x: i64 = a as i64 - b as i64;
    let y: i64 = c as i64 - d as i64;
    assert(-65025 <= x * y <= 65025) by (nonlinear_arith)
        requires
            -255 <= x <= 255,
            -255 <= y <= 255,
    ;
    x * y
}

/// The step of the palette that a pixel of the color `p` gets.
fn step_of(p: Rgba8, low: (u8, u8, u8), high: (u8, u8, u8), steps: i64, bias: i64) -> (step:
    i64)
    requires
        steps == 2 || steps == 3,
        1 <= bias <= 31,
    ensures
        step == bc1_step(
            p,
            (low.0 as nat, low.1 as nat, low.2 as nat),
            (high.0 as nat, high.1 as nat, high.2 as nat),
            steps as int,
            bias as int,
        ),
        0 <= step <= steps,
{
    let dot: i64 = product(p.r, low.0, high.0, low.0) + product(p.g, low.1, high.1, low.1)
        + product(p.b, low.2, high.2, low.2);
    let len: i64 = product(high.0, low.0, high.0, low.0) + product(high.1, low.1, high.1, low.1)
        + product(high.2, low.2, high.2, low.2);
    assert(len >= 0) by (nonlinear_arith)
        requires
            len == (high.0 - low.0) * (high.0 - low.0) + (high.1 - low.1) * (high.1 - low.1) + (
            high.2 - low.2) * (high.2 - low.2),
    ;
    assert(-195075 * 96 <= steps * 32 * dot <= 195075 * 96) by (nonlinear_arith)
        requires
            2 <= steps <= 3,
            -195075 <= dot <= 195075,
    ;
    assert(0 <= bias * len <= 31 * 195075) by (nonlinear_arith)
        requires
            1 <= bias <= 31,
            0 <= len <= 195075,
    ;
    let num: i64 = steps * 32 * dot + bias * len;
    if len == 0 || num < 0 {
        0
    } else {
        let q: i64 = num / (32 * len);
        if q > steps {
            steps
        } else {
            q
        }
    }
}

/// How far a pixel lies from the middle of a box in each channel, twice.
fn off_center_of(bounds: &Bounds, p: Rgba8) -> (r: (i64, i64, i64))
    ensures
        r.0 == bounds.off_center(p, 0),
        r.1 == bounds.off_center(p, 1),
        r.2 == bounds.off_center(p, 2),
        -510 <= r.0 <= 510,
        -510 <= r.1 <= 510,
        -510 <= r.2 <= 510,
{
    (
        2 * (p.r as i64) - (bounds.low.0 as i64 + bounds.high.0 as i64),
        2 * (p.g as i64) - (bounds.low.1 as i64 + bounds.high.1 as i64),
        2 * (p.b as i64) - (bounds.low.2 as i64 + bounds.high.2 as i64),
    )
}

/// Finds the channels that fall where the widest channel of the box rises.
fn falling_of(block: &[Rgba8; 16], options: Bc1Options, bounds: &Bounds) -> (falls: (
    bool,
    bool,
    bool,
))
    requires
        *bounds == Bounds::of(block@, options, 16),
    ensures
        falls == falling(block@, options),
{
    let r: i64 = bounds.high.0 as i64 - bounds.low.0 as i64;
    let g: i64 = bounds.high.1 as i64 - bounds.low.1 as i64;
    let b: i64 = bounds.high.2 as i64 - bounds.low.2 as i64;
    let widest: usize = if r >= g && r >= b {
        0
    } else if g >= b {
        1
    } else {
        2
    };
    let mut lean: (i64, i64, i64) = (0, 0, 0);
    let mut n: usize = 0;
    while n < 16
        invariant
            n <= 16,
            widest == bounds.widest(),
            lean.0 == bounds.lean(block@, options, 0, n as nat),
            lean.1 == bounds.lean(block@, options, 1, n as nat),
            lean.2 == bounds.lean(block@, options, 2, n as nat),
            -260100 * n <= lean.0 <= 260100 * n,
            -260100 * n <= lean.1 <= 260100 * n,
            -260100 * n <= lean.2 <= 260100 * n,
        decreases 16 - n,
    {
        let p = block[n];
        if options.no_default || p.a >= 128 {
            let off = off_center_of(bounds, p);
            let along: i64 = if widest == 0 {
                off.0
            } else if widest == 1 {
                off.1
            } else {
                off.2
            };
            assert(-260100 <= along * off.0 <= 260100 && -260100 <= along * off.1 <= 260100
                && -260100 <= along * off.2 <= 260100) by (nonlinear_arith)
                requires
                    -510 <= along <= 510,
                    -510 <= off.0 <= 510,
                    -510 <= off.1 <= 510,
                    -510 <= off.2 <= 510,
            ;
            lean = (lean.0 + along * off.0, lean.1 + along * off.1, lean.2 + along * off.2);
        }
        n = n + 1;
    }
    (lean.0 < 0, lean.1 < 0, lean.2 < 0)
}

/// Encodes 16 pixels as a BC1 block.
pub fn compress_bc1_block(block: [Rgba8; 16], options: Bc1Options) -> (out: [u8; 8])
    ensures
        out@ == spec_compress_bc1(block@, options),
{
    let mut bounds = Bounds {
        any_opaque: false,
        any_clear: false,
        low: (255u8, 255u8, 255u8),
        high: (0u8, 0u8, 0u8),
    };
    let mut n: usize = 0;
    while n < 16
        invariant
            n <= 16,
            bounds == Bounds::of(block@, options, n as nat),
        decreases 16 - n,
    {
        bounds = bounds.add(block[n], options);
        n = n + 1;
    }
    let falls = falling_of(&block, options, &bounds);
    let near = (
        if falls.0 {
            bounds.high.0
        } else {
            bounds.low.0
        },
        if falls.1 {
            bounds.high.1
        } else {
            bounds.low.1
        },
        if falls.2 {
            bounds.high.2
        } else {
            bounds.low.2
        },
    );
    let far = (
        if falls.0 {
            bounds.low.0
        } else {
            bounds.high.0
        },
        if falls.1 {
            bounds.low.1
        } else {
            bounds.high.1
        },
        if falls.2 {
            bounds.low.2
        } else {
            bounds.high.2
        },
    );
    let a: u16 = rgb565_of(near);
    let b: u16 = rgb565_of(far);
    let low_color: u16 = if a <= b {
        a
    } else {
        b
    };
    let high_color: u16 = if a <= b {
        b
    } else {
        a
    };
    let three = bounds.any_clear || high_color == low_color;
    let low = color_of_565(low_color);
    let high = color_of_565(high_color);
    let steps: i64 = if three {
        2
    } else {
        3
    };
    let mut indices: [u8; 16] = [3u8;16];
    let mut i: usize = 0;
    while i < 16
        invariant
            i <= 16,
            low_color == end_colors(block@, options).0,
            high_color == end_colors(block@, options).1,
            three == three_colors(block@, options),
            (low.0 as nat, low.1 as nat, low.2 as nat) == color_of(low_color as nat),
            (high.0 as nat, high.1 as nat, high.2 as nat) == color_of(high_color as nat),
            steps == (if three {
                2i64
            } else {
                3i64
            }),
            forall|j: int| 0 <= j < i ==> #[trigger] indices@[j] == bc1_choice(block@, options, j as nat),
            forall|j: int| 0 <= j < 16 ==> #[trigger] indices@[j] < 4,
        decreases 16 - i,
    {
        proof {
            reveal(bc1_choice);
        }
        let p = block[i];
        if options.no_default || p.a >= 128 {
            let bias: i64 = if options.dither {
                2 * (bayer_threshold(i) as i64) + 1
            } else {
                16
            };
            let step = step_of(p, low, high, steps, bias);
            indices[i] = if three {
                if step == 0 {
                    0
                } else if step == 1 {
                    2
                } else {
                    1
                }
            } else {
                if step == 0 {
                    1
                } else if step == 1 {
                    3
                } else if step == 2 {
                    2
                } else {
                    0
                }
            };
        } else {
            indices[i] = 3;
        }
        i = i + 1;
    }
    assert(indices@ =~= Seq::new(16, |i: int| bc1_choice(block@, options, i as nat)));
    if !bounds.any_opaque {
        pack_bc1(0, 0, &indices)
    } else if three {
        pack_bc1(low_color, high_color, &indices)
    } else {
        pack_bc1(high_color, low_color, &indices)
    }
}

/// Without dithering a pixel gets the step of the palette that is nearest
/// to the foot of its color on the line between the two ends: no other
/// step of the palette is nearer.
pub proof fn lemma_bc1_nearest_step(
    p: Rgba8,
    low: (nat, nat, nat),
    high: (nat, nat, nat),
    steps: int,
    other: int,
)
    requires
        steps == 2 || steps == 3,
        0 <= other <= steps,
        span(low, high) > 0,
    ensures
        0 <= bc1_step(p, low, high, steps, 16) <= steps,
        vstd::math::abs(steps * along(p, low, high) - bc1_step(p, low, high, steps, 16) * span(
            low,
            high,
        )) <= vstd::math::abs(steps * along(p, low, high) - other * span(low, high)),
{
    let len = span(low, high);
    let x = steps * along(p, low, high);
    let num = steps * 32 * along(p, low, high) + 16 * len;
    assert(num == 32 * x + 16 * len) by (nonlinear_arith)
        requires
            num == steps * 32 * along(p, low, high) + 16 * len,
            x == steps * along(p, low, high),
    ;
    let step = bc1_step(p, low, high, steps, 16);
    let u = other * len;
    assert(0 <= u <= steps * len) by (nonlinear_arith)
        requires
            u == other * len,
            0 <= other <= steps,
            len > 0,
    ;
    if num < 0 {
        // the foot lies before the line: the first step is the nearest
        assert(step == 0);
        assert(0 * len == 0) by (nonlinear_arith);
    } else {
        let m = 32 * len;
        let q = num / m;
        vstd::arithmetic::div_mod::lemma_fundamental_div_mod(num, m);
        vstd::arithmetic::div_mod::lemma_mod_bound(num, m);
        assert(q >= 0) by (nonlinear_arith)
            requires
                num >= 0,
                m > 0,
                num == m * q + num % m,
                0 <= num % m < m,
        ;
        assert(m * q == 32 * (q * len)) by (nonlinear_arith)
            requires
                m == 32 * len,
        ;
        let s = q * len;
        // the whole number of steps nearest to the foot
        assert(2 * s - len <= 2 * x < 2 * s + len);
        if q > steps {
            // the foot lies past the line: the last step is the nearest
            assert(step == steps);
            assert(s >= (steps + 1) * len) by (nonlinear_arith)
                requires
                    s == q * len,
                    q >= steps + 1,
                    len > 0,
            ;
            assert((steps + 1) * len == steps * len + len) by (nonlinear_arith);
        } else {
            assert(step == q);
            assert(other == q || u >= s + len || u <= s - len) by (nonlinear_arith)
                requires
                    u == other * len,
                    s == q * len,
                    len > 0,
            ;
        }
    }
}

/// The bounds of pixels that all have one opaque color are that color.
proof fn lemma_uniform_bounds(pixels: Seq<Rgba8>, p: Rgba8, options: Bc1Options, n: nat)
    requires
        1 <= n <= pixels.len(),
        forall|j: int| 0 <= j < pixels.len() ==> #[trigger] pixels[j] == p,
        is_opaque(p, options),
    ensures
        Bounds::of(pixels, options, n) == (Bounds {
            any_opaque: true,
            any_clear: false,
            low: (p.r, p.g, p.b),
            high: (p.r, p.g, p.b),
        }),
    decreases n,
{
    if n > 1 {
        lemma_uniform_bounds(pixels, p, options, (n - 1) as nat);
    } else {
        assert(Bounds::of(pixels, options, 0) == Bounds::empty());
    }
}

/// Five bits of red, six of green and five of blue are found again in the
/// 16-bit color that they make.
pub proof fn lemma_split_565(r5: nat, g6: nat, b5: nat)
    requires
        r5 < 32,
        g6 < 64,
        b5 < 32,
    ensures
        r5 * 2048 + g6 * 32 + b5 < 0x1_0000,
        (r5 * 2048 + g6 * 32 + b5) / 2048 % 32 == r5,
        (r5 * 2048 + g6 * 32 + b5) / 32 % 64 == g6,
        (r5 * 2048 + g6 * 32 + b5) % 32 == b5,
{
    let c = r5 * 2048 + g6 * 32 + b5;
    let upper = r5 * 64 + g6;
    assert(c == 32 * upper + b5);
    assert(c % 32 == b5 && c / 32 == upper);
    assert(upper % 64 == g6 && upper / 64 == r5);
    assert(c == 2048 * r5 + (g6 * 32 + b5));
    assert(c / 2048 == r5);
}

/// The channels of a 16-bit color are found again in it.
pub proof fn lemma_color_of_rgb565(r: nat, g: nat, b: nat)
    requires
        r <= 255,
        g <= 255,
        b <= 255,
    ensures
        rgb565(r, g, b) < 0x1_0000,
        color_of(rgb565(r, g, b)) == (
            expand5(quantize5(r)),
            expand6(quantize6(g)),
            expand5(quantize5(b)),
        ),
{
    lemma_quantize_bounds(r, 0, 0);
    lemma_quantize_bounds(g, 0, 0);
    lemma_quantize_bounds(b, 0, 0);
    lemma_split_565(quantize5(r), quantize6(g), quantize5(b));
}

/// A block of 16 pixels of one opaque color is encoded with that color,
/// cut down to 16 bits, as both of its colors, and with the index 0 for
/// every pixel. It decodes to opaque pixels of one color, which is in no
/// channel further from the color of the pixels than the cut to 5 or 6
/// bits allows: by 4 in red and blue, by 2 in green, and by nothing once
/// it is cut down again.
pub proof fn lemma_bc1_uniform(pixels: Seq<Rgba8>, p: Rgba8, options: Bc1Options, i: nat)
    requires
        pixels.len() == 16,
        forall|j: int| 0 <= j < 16 ==> #[trigger] pixels[j] == p,
        is_opaque(p, options),
        i < 16,
    ensures
        ({
            let c = rgb565(p.r as nat, p.g as nat, p.b as nat);
            let block = spec_compress_bc1(pixels, options);
            let q = bc1_pixel(block, i);
            &&& block == seq![
                (c % 256) as u8,
                (c / 256) as u8,
                (c % 256) as u8,
                (c / 256) as u8,
                0u8,
                0u8,
                0u8,
                0u8,
            ]
            &&& q.a == 255
            &&& -4 <= q.r - p.r <= 4
            &&& -2 <= q.g - p.g <= 2
            &&& -4 <= q.b - p.b <= 4
            &&& rgb565(q.r as nat, q.g as nat, q.b as nat) == c
        }),
{
    reveal(bc1_choice);
    lemma_uniform_bounds(pixels, p, options, 16);
    let bounds = Bounds::of(pixels, options, 16);
    let c = rgb565(p.r as nat, p.g as nat, p.b as nat);
    let falls = falling(pixels, options);
    assert(bounds.near_end(falls) == (p.r, p.g, p.b));
    assert(bounds.far_end(falls) == (p.r, p.g, p.b));
    assert(end_colors(pixels, options) == (c, c));
    lemma_color_of_rgb565(p.r as nat, p.g as nat, p.b as nat);
    let indices = Seq::new(16, |j: int| bc1_choice(pixels, options, j as nat));
    assert forall|j: int| 0 <= j < 16 implies indices[j] == 0 by {
        assert(span(color_of(c), color_of(c)) == 0) by (nonlinear_arith);
    }
    let block = spec_compress_bc1(pixels, options);
    assert(block == bc1_block(c, c, indices));
    assert(block =~= seq![
        (c % 256) as u8,
        (c / 256) as u8,
        (c % 256) as u8,
        (c / 256) as u8,
        0u8,
        0u8,
        0u8,
        0u8,
    ]);
    lemma_bc1_block(c, c, indices, i);
    lemma_quantize_bounds(p.r as nat, quantize5(p.r as nat), quantize6(p.g as nat));
    lemma_quantize_bounds(p.g as nat, quantize5(p.b as nat), quantize6(p.g as nat));
    lemma_quantize_bounds(p.b as nat, quantize5(p.b as nat), quantize6(p.g as nat));
}


/// A BC1 block has 8 bytes.
pub proof fn lemma_bc1_len(pixels: Seq<Rgba8>, options: Bc1Options)
    ensures
        spec_compress_bc1(pixels, options).len() == 8,
{
}

} // verus!
