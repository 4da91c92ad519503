//! The codec of the uncompressed formats whose channels are whole numbers.
//!
//! A pixel of such a format is a little-endian number of one to eight
//! bytes, and each channel a field of bits of it. A channel that the
//! format does not store reads as 0, alpha as fully opaque. Formats whose
//! channels are floating point numbers are not decoded here.

use vstd::prelude::*;

use crate::error::EncodeError;
use crate::format::Format;
use crate::grid::{PixelGrid, Rgba8};
use crate::layout::Size;

verus! {

/// The bits of a pixel that hold a channel. A channel that is not stored
/// has no bits.
#[derive(Debug, Clone, Copy, PartialEq, Eq, Structural)]
pub struct Field {
    /// The number of bits below the field.
    pub shift: u8,
    /// The number of bits of the field.
    pub bits: u8,
}

/// How an uncompressed format stores a pixel.
#[derive(Debug, Clone, Copy, PartialEq, Eq, Structural)]
pub struct PixelLayout {
    /// The number of bytes of a pixel.
    pub bytes: u8,
    pub r: Field,
    pub g: Field,
    pub b: Field,
    pub a: Field,
    /// The fields hold signed numbers in two's complement.
    pub signed: bool,
}

impl Field {
    /// The field lies within a pixel of `bytes` bytes and has at most 16
    /// bits, and for signed numbers at least 2.
    pub open spec fn wf(self, bytes: u8, signed: bool) -> bool {
        self.bits <= 16 && self.shift < 64 && self.shift + self.bits <= 8 * bytes && (signed
            && self.bits != 0 ==> self.bits >= 2)
    }
}

impl PixelLayout {
    pub open spec fn wf(self) -> bool {
        &&& 1 <= self.bytes <= 8
        &&& self.r.wf(self.bytes, self.signed)
        &&& self.g.wf(self.bytes, self.signed)
        &&& self.b.wf(self.bytes, self.signed)
        &&& self.a.wf(self.bytes, self.signed)
    }
}

impl Format {
    /// How the format stores a pixel; `None` for a format that is block
    /// compressed or whose channels are floating point numbers.
    pub open spec fn spec_pixel_layout(self) -> Option<PixelLayout> {
        match self {
            Format::R8G8B8_UNORM => Some(
                PixelLayout {
                    bytes: 3,
                    r: Field { shift: 0, bits: 8 },
                    g: Field { shift: 8, bits: 8 },
                    b: Field { shift: 16, bits: 8 },
                    a: Field { shift: 0, bits: 0 },
                    signed: false,
                },
            ),
            Format::B8G8R8_UNORM => Some(
                PixelLayout {
                    bytes: 3,
                    r: Field { shift: 16, bits: 8 },
                    g: Field { shift: 8, bits: 8 },
                    b: Field { shift: 0, bits: 8 },
                    a: Field { shift: 0, bits: 0 },
                    signed: false,
                },
            ),
            Format::R8G8B8A8_UNORM => Some(
                PixelLayout {
                    bytes: 4,
                    r: Field { shift: 0, bits: 8 },
                    g: Field { shift: 8, bits: 8 },
                    b: Field { shift: 16, bits: 8 },
                    a: Field { shift: 24, bits: 8 },
                    signed: false,
                },
            ),
            Format::R8G8B8A8_SNORM => Some(
                PixelLayout {
                    bytes: 4,
                    r: Field { shift: 0, bits: 8 },
                    g: Field { shift: 8, bits: 8 },
                    b: Field { shift: 16, bits: 8 },
                    a: Field { shift: 24, bits: 8 },
                    signed: true,
                },
            ),
            Format::B8G8R8A8_UNORM => Some(
                PixelLayout {
                    bytes: 4,
                    r: Field { shift: 16, bits: 8 },
                    g: Field { shift: 8, bits: 8 },
                    b: Field { shift: 0, bits: 8 },
                    a: Field { shift: 24, bits: 8 },
                    signed: false,
                },
            ),
            Format::B8G8R8X8_UNORM => Some(
                PixelLayout {
                    bytes: 4,
                    r: Field { shift: 16, bits: 8 },
                    g: Field { shift: 8, bits: 8 },
                    b: Field { shift: 0, bits: 8 },
                    a: Field { shift: 0, bits: 0 },
                    signed: false,
                },
            ),
            Format::B5G6R5_UNORM => Some(
                PixelLayout {
                    bytes: 2,
                    r: Field { shift: 11, bits: 5 },
                    g: Field { shift: 5, bits: 6 },
                    b: Field { shift: 0, bits: 5 },
                    a: Field { shift: 0, bits: 0 },
                    signed: false,
                },
            ),
            Format::B5G5R5A1_UNORM => Some(
                PixelLayout {
                    bytes: 2,
                    r: Field { shift: 10, bits: 5 },
                    g: Field { shift: 5, bits: 5 },
                    b: Field { shift: 0, bits: 5 },
                    a: Field { shift: 15, bits: 1 },
                    signed: false,
                },
            ),
            Format::B4G4R4A4_UNORM => Some(
                PixelLayout {
                    bytes: 2,
                    r: Field { shift: 8, bits: 4 },
                    g: Field { shift: 4, bits: 4 },
                    b: Field { shift: 0, bits: 4 },
                    a: Field { shift: 12, bits: 4 },
                    signed: false,
                },
            ),
            Format::R8_UNORM => Some(
                PixelLayout {
                    bytes: 1,
                    r: Field { shift: 0, bits: 8 },
                    g: Field { shift: 0, bits: 0 },
                    b: Field { shift: 0, bits: 0 },
                    a: Field { shift: 0, bits: 0 },
                    signed: false,
                },
            ),
            Format::R8_SNORM => Some(
                PixelLayout {
                    bytes: 1,
                    r: Field { shift: 0, bits: 8 },
                    g: Field { shift: 0, bits: 0 },
                    b: Field { shift: 0, bits: 0 },
                    a: Field { shift: 0, bits: 0 },
                    signed: true,
                },
            ),
            Format::R8G8_UNORM => Some(
                PixelLayout {
                    bytes: 2,
                    r: Field { shift: 0, bits: 8 },
                    g: Field { shift: 8, bits: 8 },
                    b: Field { shift: 0, bits: 0 },
                    a: Field { shift: 0, bits: 0 },
                    signed: false,
                },
            ),
            Format::R8G8_SNORM => Some(
                PixelLayout {
                    bytes: 2,
                    r: Field { shift: 0, bits: 8 },
                    g: Field { shift: 8, bits: 8 },
                    b: Field { shift: 0, bits: 0 },
                    a: Field { shift: 0, bits: 0 },
                    signed: true,
                },
            ),
            Format::A8_UNORM => Some(
                PixelLayout {
                    bytes: 1,
                    r: Field { shift: 0, bits: 0 },
                    g: Field { shift: 0, bits: 0 },
                    b: Field { shift: 0, bits: 0 },
                    a: Field { shift: 0, bits: 8 },
                    signed: false,
                },
            ),
            Format::R16_UNORM => Some(
                PixelLayout {
                    bytes: 2,
                    r: Field { shift: 0, bits: 16 },
                    g: Field { shift: 0, bits: 0 },
                    b: Field { shift: 0, bits: 0 },
                    a: Field { shift: 0, bits: 0 },
                    signed: false,
                },
            ),
            Format::R16_SNORM => Some(
                PixelLayout {
                    bytes: 2,
                    r: Field { shift: 0, bits: 16 },
                    g: Field { shift: 0, bits: 0 },
                    b: Field { shift: 0, bits: 0 },
                    a: Field { shift: 0, bits: 0 },
                    signed: true,
                },
            ),
            Format::R16G16_UNORM => Some(
                PixelLayout {
                    bytes: 4,
                    r: Field { shift: 0, bits: 16 },
                    g: Field { shift: 16, bits: 16 },
                    b: Field { shift: 0, bits: 0 },
                    a: Field { shift: 0, bits: 0 },
                    signed: false,
                },
            ),
            Format::R16G16_SNORM => Some(
                PixelLayout {
                    bytes: 4,
                    r: Field { shift: 0, bits: 16 },
                    g: Field { shift: 16, bits: 16 },
                    b: Field { shift: 0, bits: 0 },
                    a: Field { shift: 0, bits: 0 },
                    signed: true,
                },
            ),
            Format::R16G16B16A16_UNORM => Some(
                PixelLayout {
                    bytes: 8,
                    r: Field { shift: 0, bits: 16 },
                    g: Field { shift: 16, bits: 16 },
                    b: Field { shift: 32, bits: 16 },
                    a: Field { shift: 48, bits: 16 },
                    signed: false,
                },
            ),
            Format::R16G16B16A16_SNORM => Some(
                PixelLayout {
                    bytes: 8,
                    r: Field { shift: 0, bits: 16 },
                    g: Field { shift: 16, bits: 16 },
                    b: Field { shift: 32, bits: 16 },
                    a: Field { shift: 48, bits: 16 },
                    signed: true,
                },
            ),
            Format::R10G10B10A2_UNORM => Some(
                PixelLayout {
                    bytes: 4,
                    r: Field { shift: 0, bits: 10 },
                    g: Field { shift: 10, bits: 10 },
                    b: Field { shift: 20, bits: 10 },
                    a: Field { shift: 30, bits: 2 },
                    signed: false,
                },
            ),
            _ => None,
        }
    }

    pub fn pixel_layout(self) -> (r: Option<PixelLayout>)
        ensures
            r == self.spec_pixel_layout(),
            r matches Some(layout) ==> layout.wf() && layout.bytes
                == self.spec_pixel_info().bytes_per_block,
    {
        match self {
            Format::R8G8B8_UNORM => Some(
                PixelLayout {
                    bytes: 3,
                    r: Field { shift: 0, bits: 8 },
                    g: Field { shift: 8, bits: 8 },
                    b: Field { shift: 16, bits: 8 },
                    a: Field { shift: 0, bits: 0 },
                    signed: false,
                },
            ),
            Format::B8G8R8_UNORM => Some(
                PixelLayout {
                    bytes: 3,
                    r: Field { shift: 16, bits: 8 },
                    g: Field { shift: 8, bits: 8 },
                    b: Field { shift: 0, bits: 8 },
                    a: Field { shift: 0, bits: 0 },
                    signed: false,
                },
            ),
            Format::R8G8B8A8_UNORM => Some(
                PixelLayout {
                    bytes: 4,
                    r: Field { shift: 0, bits: 8 },
                    g: Field { shift: 8, bits: 8 },
                    b: Field { shift: 16, bits: 8 },
                    a: Field { shift: 24, bits: 8 },
                    signed: false,
                },
            ),
            Format::R8G8B8A8_SNORM => Some(
                PixelLayout {
                    bytes: 4,
                    r: Field { shift: 0, bits: 8 },
                    g: Field { shift: 8, bits: 8 },
                    b: Field { shift: 16, bits: 8 },
                    a: Field { shift: 24, bits: 8 },
                    signed: true,
                },
            ),
            Format::B8G8R8A8_UNORM => Some(
                PixelLayout {
                    bytes: 4,
                    r: Field { shift: 16, bits: 8 },
                    g: Field { shift: 8, bits: 8 },
                    b: Field { shift: 0, bits: 8 },
                    a: Field { shift: 24, bits: 8 },
                    signed: false,
                },
            ),
            Format::B8G8R8X8_UNORM => Some(
                PixelLayout {
                    bytes: 4,
                    r: Field { shift: 16, bits: 8 },
                    g: Field { shift: 8, bits: 8 },
                    b: Field { shift: 0, bits: 8 },
                    a: Field { shift: 0, bits: 0 },
                    signed: false,
                },
            ),
            Format::B5G6R5_UNORM => Some(
                PixelLayout {
                    bytes: 2,
                    r: Field { shift: 11, bits: 5 },
                    g: Field { shift: 5, bits: 6 },
                    b: Field { shift: 0, bits: 5 },
                    a: Field { shift: 0, bits: 0 },
                    signed: false,
                },
            ),
            Format::B5G5R5A1_UNORM => Some(
                PixelLayout {
                    bytes: 2,
                    r: Field { shift: 10, bits: 5 },
                    g: Field { shift: 5, bits: 5 },
                    b: Field { shift: 0, bits: 5 },
                    a: Field { shift: 15, bits: 1 },
                    signed: false,
                },
            ),
            Format::B4G4R4A4_UNORM => Some(
                PixelLayout {
                    bytes: 2,
                    r: Field { shift: 8, bits: 4 },
                    g: Field { shift: 4, bits: 4 },
                    b: Field { shift: 0, bits: 4 },
                    a: Field { shift: 12, bits: 4 },
                    signed: false,
                },
            ),
            Format::R8_UNORM => Some(
                PixelLayout {
                    bytes: 1,
                    r: Field { shift: 0, bits: 8 },
                    g: Field { shift: 0, bits: 0 },
                    b: Field { shift: 0, bits: 0 },
                    a: Field { shift: 0, bits: 0 },
                    signed: false,
                },
            ),
            Format::R8_SNORM => Some(
                PixelLayout {
                    bytes: 1,
                    r: Field { shift: 0, bits: 8 },
                    g: Field { shift: 0, bits: 0 },
                    b: Field { shift: 0, bits: 0 },
                    a: Field { shift: 0, bits: 0 },
                    signed: true,
                },
            ),
            Format::R8G8_UNORM => Some(
                PixelLayout {
                    bytes: 2,
                    r: Field { shift: 0, bits: 8 },
                    g: Field { shift: 8, bits: 8 },
                    b: Field { shift: 0, bits: 0 },
                    a: Field { shift: 0, bits: 0 },
                    signed: false,
                },
            ),
            Format::R8G8_SNORM => Some(
                PixelLayout {
                    bytes: 2,
                    r: Field { shift: 0, bits: 8 },
                    g: Field { shift: 8, bits: 8 },
                    b: Field { shift: 0, bits: 0 },
                    a: Field { shift: 0, bits: 0 },
                    signed: true,
                },
            ),
            Format::A8_UNORM => Some(
                PixelLayout {
                    bytes: 1,
                    r: Field { shift: 0, bits: 0 },
                    g: Field { shift: 0, bits: 0 },
                    b: Field { shift: 0, bits: 0 },
                    a: Field { shift: 0, bits: 8 },
                    signed: false,
                },
            ),
            Format::R16_UNORM => Some(
                PixelLayout {
                    bytes: 2,
                    r: Field { shift: 0, bits: 16 },
                    g: Field { shift: 0, bits: 0 },
                    b: Field { shift: 0, bits: 0 },
                    a: Field { shift: 0, bits: 0 },
                    signed: false,
                },
            ),
            Format::R16_SNORM => Some(
                PixelLayout {
                    bytes: 2,
                    r: Field { shift: 0, bits: 16 },
                    g: Field { shift: 0, bits: 0 },
                    b: Field { shift: 0, bits: 0 },
                    a: Field { shift: 0, bits: 0 },
                    signed: true,
                },
            ),
            Format::R16G16_UNORM => Some(
                PixelLayout {
                    bytes: 4,
                    r: Field { shift: 0, bits: 16 },
                    g: Field { shift: 16, bits: 16 },
                    b: Field { shift: 0, bits: 0 },
                    a: Field { shift: 0, bits: 0 },
                    signed: false,
                },
            ),
            Format::R16G16_SNORM => Some(
                PixelLayout {
                    bytes: 4,
                    r: Field { shift: 0, bits: 16 },
                    g: Field { shift: 16, bits: 16 },
                    b: Field { shift: 0, bits: 0 },
                    a: Field { shift: 0, bits: 0 },
                    signed: true,
                },
            ),
            Format::R16G16B16A16_UNORM => Some(
                PixelLayout {
                    bytes: 8,
                    r: Field { shift: 0, bits: 16 },
                    g: Field { shift: 16, bits: 16 },
                    b: Field { shift: 32, bits: 16 },
                    a: Field { shift: 48, bits: 16 },
                    signed: false,
                },
            ),
            Format::R16G16B16A16_SNORM => Some(
                PixelLayout {
                    bytes: 8,
                    r: Field { shift: 0, bits: 16 },
                    g: Field { shift: 16, bits: 16 },
                    b: Field { shift: 32, bits: 16 },
                    a: Field { shift: 48, bits: 16 },
                    signed: true,
                },
            ),
            Format::R10G10B10A2_UNORM => Some(
                PixelLayout {
                    bytes: 4,
                    r: Field { shift: 0, bits: 10 },
                    g: Field { shift: 10, bits: 10 },
                    b: Field { shift: 20, bits: 10 },
                    a: Field { shift: 30, bits: 2 },
                    signed: false,
                },
            ),
            _ => None,
        }
    }
}

/// Byte `i` of the pixel of `n` bytes that starts at byte `at`, or 0 past
/// the pixel.
pub open spec fn pixel_byte(data: Seq<u8>, at: int, n: nat, i: nat) -> nat {
    if i < n {
        data[at + i] as nat
    } else {
        0
    }
}

/// The number that the pixel of `n` bytes that starts at byte `at` holds
/// in little-endian order.
pub open spec fn pixel_value(data: Seq<u8>, at: int, n: nat) -> nat {
    pixel_byte(data, at, n, 0) + 0x100 * pixel_byte(data, at, n, 1) + 0x1_0000 * pixel_byte(
        data,
        at,
        n,
        2,
    ) + 0x100_0000 * pixel_byte(data, at, n, 3) + 0x1_0000_0000 * pixel_byte(data, at, n, 4)
        + 0x100_0000_0000 * pixel_byte(data, at, n, 5) + 0x1_0000_0000_0000 * pixel_byte(
        data,
        at,
        n,
        6,
    ) + 0x100_0000_0000_0000 * pixel_byte(data, at, n, 7)
}

/// Byte `i` of a number in little-endian order.
pub open spec fn value_byte(value: u64, i: nat) -> u8 {
    if i == 0 {
        (value % 0x100) as u8
    } else if i == 1 {
        (value / 0x100 % 0x100) as u8
    } else if i == 2 {
        (value / 0x1_0000 % 0x100) as u8
    } else if i == 3 {
        (value / 0x100_0000 % 0x100) as u8
    } else if i == 4 {
        (value / 0x1_0000_0000 % 0x100) as u8
    } else if i == 5 {
        (value / 0x100_0000_0000 % 0x100) as u8
    } else if i == 6 {
        (value / 0x1_0000_0000_0000 % 0x100) as u8
    } else {
        (value / 0x100_0000_0000_0000 % 0x100) as u8
    }
}

/// The `n` low bytes of a number in little-endian order.
pub open spec fn value_bytes(value: u64, n: nat) -> Seq<u8> {
    Seq::new(n, |i: int| value_byte(value, i as nat))
}

/// The greatest number that `bits` bits hold.
pub open spec fn low_mask(bits: u8) -> u64 {
    ((1u64 << bits) - 1) as u64
}

/// The number that a field of a pixel holds.
pub open spec fn field_of(value: u64, f: Field) -> u64 {
    (value >> f.shift) & low_mask(f.bits)
}

/// The 8-bit value that stands for the same share of the whole as `raw`
/// of `max`, rounded to the nearest. A signed number is `raw` of the
/// greatest signed number where it is above 0, and 0 below.
pub open spec fn channel8(raw: nat, max: nat, signed: bool) -> u8 {
    if !signed {
        ((raw * 510 + max) / (2 * max)) as u8
    } else {
        let half = (max + 1) / 2;
        let most = (half - 1) as nat;
        if raw >= half {
            0
        } else {
            ((raw * 510 + most) / (2 * most)) as u8
        }
    }
}

/// The number of a field that stands for the same share of the whole as
/// the 8-bit value `v`, rounded to the nearest.
pub open spec fn raw_of(v: u8, max: nat, signed: bool) -> u64 {
    if !signed {
        ((v * max * 2 + 255) / 510) as u64
    } else {
        let most = ((max + 1) / 2 - 1) as nat;
        ((v * most * 2 + 255) / 510) as u64
    }
}

/// The value of a channel of a pixel: what its field holds, or `missing`
/// where the channel is not stored.
pub open spec fn channel_at(value: u64, f: Field, signed: bool, missing: u8) -> u8 {
    if f.bits == 0 {
        missing
    } else {
        channel8(field_of(value, f) as nat, low_mask(f.bits) as nat, signed)
    }
}

/// The color of a pixel that holds the number `value`. Red, green and
/// blue that are not stored are 0; alpha that is not stored is 255.
pub open spec fn pixel_color(layout: PixelLayout, value: u64) -> Rgba8 {
    Rgba8 {
        r: channel_at(value, layout.r, layout.signed, 0),
        g: channel_at(value, layout.g, layout.signed, 0),
        b: channel_at(value, layout.b, layout.signed, 0),
        a: channel_at(value, layout.a, layout.signed, 255),
    }
}

/// The bits of a pixel that a channel of the value `v` sets.
pub open spec fn field_bits(v: u8, f: Field, signed: bool) -> u64 {
    if f.bits == 0 {
        0
    } else {
        raw_of(v, low_mask(f.bits) as nat, signed) << f.shift
    }
}

/// The number that a pixel of the color `p` holds.
pub open spec fn color_value(layout: PixelLayout, p: Rgba8) -> u64 {
    field_bits(p.r, layout.r, layout.signed) | field_bits(p.g, layout.g, layout.signed)
        | field_bits(p.b, layout.b, layout.signed) | field_bits(p.a, layout.a, layout.signed)
}

/// The masks of fields of at most 16 bits are at most 65535, and a field
/// holds at most its mask.
proof fn lemma_field_bound(value: u64, shift: u8, bits: u8)
    requires
        bits <= 16,
        shift < 64,
    ensures
        (1u64 << bits) >= 1,
        low_mask(bits) == (1u64 << bits) - 1,
        low_mask(bits) <= 0xFFFF,
        bits >= 1 ==> low_mask(bits) >= 1,
        bits >= 2 ==> low_mask(bits) >= 3,
        low_mask(bits) % 2 == (if bits == 0 {
            0int
        } else {
            1int
        }),
        ((value >> shift) & low_mask(bits)) <= low_mask(bits),
{
    let m = low_mask(bits);
    assert((1u64 << bits) >= 1) by (bit_vector)
        requires
            bits <= 16,
    ;
    assert(((1u64 << bits) - 1) as u64 <= 0xFFFF) by (bit_vector)
        requires
            bits <= 16,
    ;
    assert(bits >= 1 ==> ((1u64 << bits) - 1) as u64 >= 1) by (bit_vector)
        requires
            bits <= 16,
    ;
    assert(bits >= 2 ==> ((1u64 << bits) - 1) as u64 >= 3) by (bit_vector)
        requires
            bits <= 16,
    ;
    assert(bits >= 1 ==> (((1u64 << bits) - 1) as u64) % 2 == 1) by (bit_vector)
        requires
            bits <= 16,
    ;
    assert(bits == 0 ==> ((1u64 << bits) - 1) as u64 == 0) by (bit_vector);
    assert(((value >> shift) & m) <= m) by (bit_vector);
}

/// The value of a channel of a pixel.
fn channel(value: u64, f: Field, signed: bool, missing: u8) -> (v: u8)
    requires
        f.bits <= 16,
        f.shift < 64,
        signed && f.bits != 0 ==> f.bits >= 2,
    ensures
        v == channel_at(value, f, signed, missing),
{
    if f.bits == 0 {
        return missing;
    }
    proof {
        lemma_field_bound(value, f.shift, f.bits);
    }
    let max: u64 = (1u64 << f.bits) - 1;
    let raw: u64 = (value >> f.shift) & max;
    if !signed {
        assert((raw * 510 + max) / (2 * max as int) <= 255) by (nonlinear_arith)
            requires
                0 <= raw <= max,
                max >= 1,
        ;
        ((raw * 510 + max) / (2 * max)) as u8
    } else {
        let half: u64 = (max + 1) / 2;
        let most: u64 = half - 1;
        if raw >= half {
            0
        } else {
            assert((raw * 510 + most) / (2 * most as int) <= 255) by (nonlinear_arith)
                requires
                    0 <= raw <= most,
                    most >= 1,
            ;
            ((raw * 510 + most) / (2 * most)) as u8
        }
    }
}

/// The bits of a pixel that a channel of the value `v` sets.
fn bits_of(v: u8, f: Field, signed: bool) -> (r: u64)
    requires
        f.bits <= 16,
        f.shift < 64,
        signed && f.bits != 0 ==> f.bits >= 2,
    ensures
        r == field_bits(v, f, signed),
{
    if f.bits == 0 {
        return 0;
    }
    proof {
        lemma_field_bound(0, f.shift, f.bits);
    }
    let max: u64 = (1u64 << f.bits) - 1;
    let most: u64 = if signed {
        (max + 1) / 2 - 1
    } else {
        max
    };
    assert(v * most * 2 <= 255 * 0xFFFF * 2) by (nonlinear_arith)
        requires
            v <= 255,
            most <= 0xFFFF,
    ;
    assert(v * most == (v as u64 * most) as int) by (nonlinear_arith)
        requires
            v <= 255,
            most <= 0xFFFF,
            (v as u64 * most) as int == v * most,
    ;
    let raw: u64 = (v as u64 * most * 2 + 255) / 510;
    raw << f.shift
}

/// Reads the number of the pixel of `n` bytes that starts at byte `at`.
fn read_value(data: &[u8], at: usize, n: usize) -> (value: u64)
    requires
        1 <= n <= 8,
        at + n <= data.len(),
    ensures
        value == pixel_value(data@, at as int, n as nat),
{
    let b0: u64 = data[at] as u64;
    let b1: u64 = if n > 1 {
        data[at + 1] as u64
    } else {
        0
    };
    let b2: u64 = if n > 2 {
        data[at + 2] as u64
    } else {
        0
    };
    let b3: u64 = if n > 3 {
        data[at + 3] as u64
    } else {
        0
    };
    let b4: u64 = if n > 4 {
        data[at + 4] as u64
    } else {
        0
    };
    let b5: u64 = if n > 5 {
        data[at + 5] as u64
    } else {
        0
    };
    let b6: u64 = if n > 6 {
        data[at + 6] as u64
    } else {
        0
    };
    let b7: u64 = if n > 7 {
        data[at + 7] as u64
    } else {
        0
    };
    b0 + 0x100 * b1 + 0x1_0000 * b2 + 0x100_0000 * b3 + 0x1_0000_0000 * b4 + 0x100_0000_0000 * b5
        + 0x1_0000_0000_0000 * b6 + 0x100_0000_0000_0000 * b7
}

/// Byte `i` of a number in little-endian order.
fn byte_at(value: u64, i: usize) -> (b: u8)
    requires
        i < 8,
    ensures
        b == value_byte(value, i as nat),
{
    if i == 0 {
        (value % 0x100) as u8
    } else if i == 1 {
        (value / 0x100 % 0x100) as u8
    } else if i == 2 {
        (value / 0x1_0000 % 0x100) as u8
    } else if i == 3 {
        (value / 0x100_0000 % 0x100) as u8
    } else if i == 4 {
        (value / 0x1_0000_0000 % 0x100) as u8
    } else if i == 5 {
        (value / 0x100_0000_0000 % 0x100) as u8
    } else if i == 6 {
        (value / 0x1_0000_0000_0000 % 0x100) as u8
    } else {
        (value / 0x100_0000_0000_0000 % 0x100) as u8
    }
}

/// Decodes the pixel that starts at byte `at` of `data`.
pub fn decode_pixel(layout: PixelLayout, data: &[u8], at: usize) -> (p: Rgba8)
    requires
        layout.wf(),
        at + layout.bytes <= data.len(),
    ensures
        p == pixel_color(layout, pixel_value(data@, at as int, layout.bytes as nat) as u64),
{
    let value = read_value(data, at, layout.bytes as usize);
    Rgba8 {
        r: channel(value, layout.r, layout.signed, 0),
        g: channel(value, layout.g, layout.signed, 0),
        b: channel(value, layout.b, layout.signed, 0),
        a: channel(value, layout.a, layout.signed, 255),
    }
}

/// Encodes a pixel and appends its bytes to `out`.
pub fn encode_pixel(layout: PixelLayout, p: Rgba8, out: &mut Vec<u8>)
    requires
        layout.wf(),
    ensures
        final(out)@ == old(out)@ + value_bytes(color_value(layout, p), layout.bytes as nat),
{
    let value: u64 = bits_of(p.r, layout.r, layout.signed) | bits_of(p.g, layout.g, layout.signed)
        | bits_of(p.b, layout.b, layout.signed) | bits_of(p.a, layout.a, layout.signed);
    let n: usize = layout.bytes as usize;
    let mut i: usize = 0;
    while i < n
        invariant
            i <= n <= 8,
            out@ == old(out)@ + value_bytes(value, i as nat),
        decreases n - i,
    {
        out.push(byte_at(value, i));
        assert(out@ =~= old(out)@ + value_bytes(value, (i + 1) as nat));
        i = i + 1;
    }
}

/// The pixels of a surface of an uncompressed format, row by row, as its
/// decoder gives them.
pub open spec fn is_decoded(pixels: Seq<Rgba8>, layout: PixelLayout, data: Seq<u8>) -> bool {
    &&& data.len() == pixels.len() * layout.bytes
    &&& forall|j: int|
        0 <= j < pixels.len() ==> #[trigger] pixels[j] == pixel_color(
            layout,
            pixel_value(data, j * layout.bytes, layout.bytes as nat) as u64,
        )
}

/// Decodes a surface of an uncompressed format whose channels are whole
/// numbers from its bytes: the colors of its pixels, row by row.
///
/// `None` where the format is another, and where `data` does not hold the
/// bytes of a surface of the given size.
pub fn decode_uncompressed(format: Format, data: &[u8], size: Size) -> (r: Option<Vec<Rgba8>>)
    ensures
        match r {
            Some(pixels) => {
                &&& format.spec_pixel_layout() matches Some(layout)
                &&& pixels@.len() == size.width * size.height
                &&& is_decoded(pixels@, layout, data@)
            },
            None => format.spec_pixel_layout() matches Some(layout) ==> data@.len() != size.width
                * size.height * layout.bytes,
        },
{
    let layout = match format.pixel_layout() {
        None => {
            return None;
        },
        Some(layout) => layout,
    };
    let bytes: usize = layout.bytes as usize;
    assert(size.width * size.height <= 0xFFFF_FFFF * 0xFFFF_FFFF) by (nonlinear_arith)
        requires
            size.width <= 0xFFFF_FFFF,
            size.height <= 0xFFFF_FFFF,
    ;
    let count: u64 = size.width as u64 * size.height as u64;
    assert(count * bytes <= 0xFFFF_FFFF * 0xFFFF_FFFF * 8) by (nonlinear_arith)
        requires
            count <= 0xFFFF_FFFF * 0xFFFF_FFFF,
            bytes <= 8,
    ;
    if data.len() as u128 != count as u128 * bytes as u128 {
        return None;
    }
    let len: usize = data.len();
    assert(count <= count * bytes) by (nonlinear_arith)
        requires
            count >= 0,
            bytes >= 1,
    ;
    let mut pixels: Vec<Rgba8> = Vec::new();
    let mut j: usize = 0;
    while (j as u64) < count
        invariant
            layout.wf(),
            bytes == layout.bytes,
            len == data@.len(),
            len == count * bytes,
            count <= len,
            j <= count,
            pixels@.len() == j,
            forall|k: int|
                0 <= k < j ==> #[trigger] pixels@[k] == pixel_color(
                    layout,
                    pixel_value(data@, k * layout.bytes, layout.bytes as nat) as u64,
                ),
        decreases count - j,
    {
        assert(0 <= j * bytes && j * bytes + bytes <= count * bytes) by (nonlinear_arith)
            requires
                0 <= j < count,
                bytes >= 1,
        ;
        let p = decode_pixel(layout, data, j * bytes);
        pixels.push(p);
        j = j + 1;
    }
    Some(pixels)
}

/// The first `n` pixels, each encoded, one after the other.
pub open spec fn encoded(layout: PixelLayout, pixels: Seq<Rgba8>, n: nat) -> Seq<u8>
    decreases n,
{
    if n == 0 {
        Seq::<u8>::empty()
    } else {
        encoded(layout, pixels, (n - 1) as nat) + value_bytes(
            color_value(layout, pixels[n - 1]),
            layout.bytes as nat,
        )
    }
}

/// Encoded pixels take the bytes of a pixel each.
pub proof fn lemma_encoded_len(layout: PixelLayout, pixels: Seq<Rgba8>, n: nat)
    ensures
        encoded(layout, pixels, n).len() == n * layout.bytes,
    decreases n,
{
    if n > 0 {
        lemma_encoded_len(layout, pixels, (n - 1) as nat);
        assert(n * layout.bytes == (n - 1) * layout.bytes + layout.bytes) by (nonlinear_arith)
            requires
                n >= 1,
        ;
    } else {
        assert(0 * layout.bytes == 0) by (nonlinear_arith);
    }
}

/// Encodes an image in an uncompressed format whose channels are whole
/// numbers: its pixels row by row. The bytes are those of a surface of the
/// size of the image.
///
/// Another format is refused as unsupported by this encoder, and an image
/// without pixels as an empty surface.
pub fn encode_uncompressed<'a>(format: Format, grid: &PixelGrid<'a, Rgba8>) -> (r: Result<
    Vec<u8>,
    EncodeError,
>)
    ensures
        match r {
            Ok(bytes) => {
                &&& format.spec_pixel_layout() matches Some(layout)
                &&& grid.spec_width() != 0 && grid.spec_height() != 0
                &&& bytes@ == encoded(layout, grid.pixels(), grid.pixels().len())
                &&& bytes@.len() == grid.spec_width() * grid.spec_height() * layout.bytes
            },
            Err(e) => if format.spec_pixel_layout() is None {
                e == EncodeError::UnsupportedFormat(format)
            } else {
                e == EncodeError::EmptySurface && (grid.spec_width() == 0 || grid.spec_height()
                    == 0)
            },
        },
{
    let layout = match format.pixel_layout() {
        None => {
            return Err(EncodeError::UnsupportedFormat(format));
        },
        Some(layout) => layout,
    };
    if grid.width() == 0 || grid.height() == 0 {
        return Err(EncodeError::EmptySurface);
    }
    proof {
        use_type_invariant(grid);
        grid.lemma_valid();
    }
    let count: usize = grid.len();
    let mut out: Vec<u8> = Vec::new();
    let mut j: usize = 0;
    while j < count
        invariant
            layout.wf(),
            j <= count,
            count == grid.pixels().len(),
            out@ == encoded(layout, grid.pixels(), j as nat),
        decreases count - j,
    {
        encode_pixel(layout, grid.pixel(j), &mut out);
        j = j + 1;
    }
    proof {
        lemma_encoded_len(layout, grid.pixels(), count as nat);
    }
    Ok(out)
}


/// Fields of fewer than 8 bits come back from the 8-bit values that they
/// stand for, and 8-bit values come back from fields of 8 bits or more:
/// decoding and encoding again loses nothing that the format can hold.
pub proof fn lemma_channel_round_trip(v: u8, raw: nat, max: nat)
    requires
        raw <= max,
    ensures
        max == 1 || max == 3 || max == 15 || max == 31 || max == 63 || max == 255 ==> raw_of(
            channel8(raw, max, false),
            max,
            false,
        ) == raw,
        max == 255 || max == 1023 || max == 65535 ==> channel8(
            raw_of(v, max, false) as nat,
            max,
            false,
        ) == v,
        max == 255 ==> channel8(raw, max, false) == raw && raw_of(v, max, false) == v,
        max == 65535 ==> raw_of(v, max, false) == v * 257,
{
    if max == 1 {
        let c = (raw * 510 + 1) / 2;
        assert(c <= 255);
        assert(channel8(raw, 1, false) == c);
        assert((c * 2 + 255) / 510 == raw);
        assert(raw_of(c as u8, 1, false) == (c * 1 * 2 + 255) / 510);
    } else if max == 3 {
        let c = (raw * 510 + 3) / 6;
        assert(c <= 255);
        assert(channel8(raw, 3, false) == c);
        assert((c * 6 + 255) / 510 == raw);
        assert(raw_of(c as u8, 3, false) == (c * 3 * 2 + 255) / 510);
    } else if max == 15 {
        let c = (raw * 510 + 15) / 30;
        assert(c <= 255);
        assert(channel8(raw, 15, false) == c);
        assert((c * 30 + 255) / 510 == raw);
        assert(raw_of(c as u8, 15, false) == (c * 15 * 2 + 255) / 510);
    } else if max == 31 {
        let c = (raw * 510 + 31) / 62;
        assert(c <= 255);
        assert(channel8(raw, 31, false) == c);
        assert((c * 62 + 255) / 510 == raw);
        assert(raw_of(c as u8, 31, false) == (c * 31 * 2 + 255) / 510);
    } else if max == 63 {
        let c = (raw * 510 + 63) / 126;
        assert(c <= 255);
        assert(channel8(raw, 63, false) == c);
        assert((c * 126 + 255) / 510 == raw);
        assert(raw_of(c as u8, 63, false) == (c * 63 * 2 + 255) / 510);
    } else if max == 255 {
        let c = (raw * 510 + 255) / 510;
        assert(c <= 255);
        assert(channel8(raw, 255, false) == c);
        assert((c * 510 + 255) / 510 == raw);
        assert(raw_of(c as u8, 255, false) == (c * 255 * 2 + 255) / 510);
        assert(c == raw);
        assert(raw_of(v, 255, false) == (v * 255 * 2 + 255) / 510);
        assert(raw_of(v, 255, false) == v);
    } else if max == 1023 {
        let r = (v * 2046 + 255) / 510;
        assert(raw_of(v, 1023, false) == (v * 1023 * 2 + 255) / 510);
        assert(raw_of(v, 1023, false) == r);
        assert(r <= 1023);
        assert((r * 510 + 1023) / 2046 == v);
        assert(channel8(r as nat, 1023, false) == ((r * 510 + 1023) / 2046) as u8);
    } else if max == 65535 {
        assert(raw_of(v, 65535, false) == (v * 65535 * 2 + 255) / 510);
        assert((v * 131070 + 255) / 510 == v * 257);
        let r = v * 257;
        assert((r * 510 + 65535) / 131070 == v);
        assert(channel8(r as nat, 65535, false) == ((r * 510 + 65535) / 131070) as u8);
    }
}

/// Four bytes that are put side by side in a number are found again in it,
/// in whatever order they are put.
proof fn lemma_bytes_apart(x0: u64, x1: u64, x2: u64, x3: u64)
    by (bit_vector)
    requires
        x0 <= 255,
        x1 <= 255,
        x2 <= 255,
        x3 <= 255,
    ensures
        ((x0 << 0u8) | (x1 << 8u8) | (x2 << 16u8) | (x3 << 24u8)) == ((x2 << 16u8) | (x1 << 8u8) | (
        x0 << 0u8) | (x3 << 24u8)),
        ((((x0 << 0u8) | (x1 << 8u8) | (x2 << 16u8) | (x3 << 24u8)) >> 0u8) & 255) == x0,
        ((((x0 << 0u8) | (x1 << 8u8) | (x2 << 16u8) | (x3 << 24u8)) >> 8u8) & 255) == x1,
        ((((x0 << 0u8) | (x1 << 8u8) | (x2 << 16u8) | (x3 << 24u8)) >> 16u8) & 255) == x2,
        ((((x0 << 0u8) | (x1 << 8u8) | (x2 << 16u8) | (x3 << 24u8)) >> 24u8) & 255) == x3,
        ((1u64 << 8u8) - 1) as u64 == 255,
{
}

/// A color of four channels of 8 bits comes back as it was from a pixel
/// of a format that stores four channels of 8 bits.
pub proof fn lemma_rgba8_round_trip(format: Format, p: Rgba8)
    requires
        format == Format::R8G8B8A8_UNORM || format == Format::B8G8R8A8_UNORM,
    ensures
        pixel_color(
            format.spec_pixel_layout()->Some_0,
            color_value(format.spec_pixel_layout()->Some_0, p),
        ) == p,
{
    let layout = format.spec_pixel_layout()->Some_0;
    lemma_channel_round_trip(p.r, p.r as nat, 255);
    lemma_channel_round_trip(p.g, p.g as nat, 255);
    lemma_channel_round_trip(p.b, p.b as nat, 255);
    lemma_channel_round_trip(p.a, p.a as nat, 255);
    if format == Format::R8G8B8A8_UNORM {
        lemma_bytes_apart(p.r as u64, p.g as u64, p.b as u64, p.a as u64);
    } else {
        lemma_bytes_apart(p.b as u64, p.g as u64, p.r as u64, p.a as u64);
    }
    assert(low_mask(8) == 255);
}

} // verus!
