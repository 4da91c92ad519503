//! The catalog of pixel formats: which format a header declares, and how
//! each format stores its pixels.

use vstd::prelude::*;

use crate::error::FormatError;
use crate::header::{DxgiFormat, FourCC, Header, PixelFormat, DDPF_ALPHAPIXELS};

verus! {

/// Pixel format flag: the pixel holds alpha only.
pub const DDPF_ALPHA: u32 = 0x2;

/// The channels of a color.
#[derive(Debug, Clone, Copy, PartialEq, Eq, Structural)]
pub enum Channels {
    Grayscale,
    GrayscaleAlpha,
    Rgb,
    Rgba,
}

/// How one channel of a color is stored.
#[derive(Debug, Clone, Copy, PartialEq, Eq, Structural)]
pub enum Precision {
    U8,
    U16,
    F16,
    F32,
    SNorm8,
    SNorm16,
}

/// A color format: channels and the precision of each.
#[derive(Debug, Clone, Copy, PartialEq, Eq, Structural)]
pub struct ColorFormat {
    pub channels: Channels,
    pub precision: Precision,
}

/// The extent of a block in pixels and the number of bytes that encode it.
/// An uncompressed format has blocks of one pixel.
#[derive(Debug, Clone, Copy, PartialEq, Eq, Structural)]
pub struct PixelInfo {
    pub bytes_per_block: u8,
    pub block_width: u8,
    pub block_height: u8,
}

/// The numbers that the width and the height of an image must be multiples
/// of before it can be encoded.
#[derive(Debug, Clone, Copy, PartialEq, Eq, Structural)]
pub struct SizeMultiple {
    pub width_multiple: u32,
    pub height_multiple: u32,
}

/// Which kinds of dithering an encoder offers or applies.
#[derive(Debug, Clone, Copy, PartialEq, Eq, Structural)]
pub struct Dithering {
    pub color: bool,
    pub alpha: bool,
}

/// What the encoder of a format offers.
#[derive(Debug, Clone, Copy, PartialEq, Eq, Structural)]
pub struct EncodingSupport {
    pub dithering: Dithering,
    pub size_multiple: SizeMultiple,
}

/// A pixel format.
#[allow(non_camel_case_types)]
#[derive(Debug, Clone, Copy, PartialEq, Eq, Structural)]
pub enum Format {
    R8G8B8_UNORM,
    B8G8R8_UNORM,
    R8G8B8A8_UNORM,
    R8G8B8A8_SNORM,
    B8G8R8A8_UNORM,
    B8G8R8X8_UNORM,
    B5G6R5_UNORM,
    B5G5R5A1_UNORM,
    B4G4R4A4_UNORM,
    R8_UNORM,
    R8_SNORM,
    R8G8_UNORM,
    R8G8_SNORM,
    A8_UNORM,
    R16_UNORM,
    R16_SNORM,
    R16G16_UNORM,
    R16G16_SNORM,
    R16G16B16A16_UNORM,
    R16G16B16A16_SNORM,
    R10G10B10A2_UNORM,
    R16_FLOAT,
    R16G16_FLOAT,
    R16G16B16A16_FLOAT,
    R32_FLOAT,
    R32G32_FLOAT,
    R32G32B32_FLOAT,
    R32G32B32A32_FLOAT,
    BC1_UNORM,
    BC2_UNORM,
    BC2_UNORM_PREMULTIPLIED_ALPHA,
    BC3_UNORM,
    BC3_UNORM_PREMULTIPLIED_ALPHA,
    BC4_UNORM,
    BC4_SNORM,
    BC5_UNORM,
    BC5_SNORM,
    BC6H_UF16,
    BC6H_SF16,
    BC7_UNORM,
}

impl Channels {
    /// The number of channels.
    pub open spec fn spec_count(self) -> nat {
        match self {
            Channels::Grayscale => 1,
            Channels::GrayscaleAlpha => 2,
            Channels::Rgb => 3,
            Channels::Rgba => 4,
        }
    }

    pub fn count(self) -> (n: u8)
        ensures
            n == self.spec_count(),
    {
        match self {
            Channels::Grayscale => 1,
            Channels::GrayscaleAlpha => 2,
            Channels::Rgb => 3,
            Channels::Rgba => 4,
        }
    }
}

impl Precision {
    /// The number of bytes of one channel.
    pub open spec fn spec_size(self) -> nat {
        match self {
            Precision::U8 => 1,
            Precision::U16 => 2,
            Precision::F16 => 2,
            Precision::F32 => 4,
            Precision::SNorm8 => 1,
            Precision::SNorm16 => 2,
        }
    }

    pub fn size(self) -> (n: u8)
        ensures
            n == self.spec_size(),
    {
        match self {
            Precision::U8 => 1,
            Precision::U16 => 2,
            Precision::F16 => 2,
            Precision::F32 => 4,
            Precision::SNorm8 => 1,
            Precision::SNorm16 => 2,
        }
    }
}

impl ColorFormat {
    /// The number of bytes of one pixel.
    pub open spec fn spec_bytes_per_pixel(self) -> nat {
        self.channels.spec_count() * self.precision.spec_size()
    }

    pub fn new(channels: Channels, precision: Precision) -> (c: Self)
        ensures
            c == (ColorFormat { channels, precision }),
    {
        ColorFormat { channels, precision }
    }

    pub fn bytes_per_pixel(self) -> (n: u8)
        ensures
            n == self.spec_bytes_per_pixel(),
            1 <= n <= 16,
    {
        let c: u8 = self.channels.count();
        let s: u8 = self.precision.size();
        assert(c * s <= 16) by (nonlinear_arith)
            requires
                1 <= c <= 4,
                1 <= s <= 4,
        ;
        assert(1 <= c * s) by (nonlinear_arith)
            requires
                1 <= c <= 4,
                1 <= s <= 4,
        ;
        c * s
    }
}

impl PixelInfo {
    /// The block has an extent and a size.
    pub open spec fn wf(self) -> bool {
        self.bytes_per_block >= 1 && self.block_width >= 1 && self.block_height >= 1
    }
}

impl Format {
    /// The color that the format stores, its native color.
    pub open spec fn spec_color(self) -> ColorFormat {
        match self {
            Format::R8G8B8_UNORM => ColorFormat { channels: Channels::Rgb, precision: Precision::U8 },
            Format::B8G8R8_UNORM => ColorFormat { channels: Channels::Rgb, precision: Precision::U8 },
            Format::R8G8B8A8_UNORM => ColorFormat { channels: Channels::Rgba, precision: Precision::U8 },
            Format::R8G8B8A8_SNORM => ColorFormat { channels: Channels::Rgba, precision: Precision::SNorm8 },
            Format::B8G8R8A8_UNORM => ColorFormat { channels: Channels::Rgba, precision: Precision::U8 },
            Format::B8G8R8X8_UNORM => ColorFormat { channels: Channels::Rgb, precision: Precision::U8 },
            Format::B5G6R5_UNORM => ColorFormat { channels: Channels::Rgb, precision: Precision::U8 },
            Format::B5G5R5A1_UNORM => ColorFormat { channels: Channels::Rgba, precision: Precision::U8 },
            Format::B4G4R4A4_UNORM => ColorFormat { channels: Channels::Rgba, precision: Precision::U8 },
            Format::R8_UNORM => ColorFormat { channels: Channels::Grayscale, precision: Precision::U8 },
            Format::R8_SNORM => ColorFormat { channels: Channels::Grayscale, precision: Precision::SNorm8 },
            Format::R8G8_UNORM => ColorFormat { channels: Channels::Rgb, precision: Precision::U8 },
            Format::R8G8_SNORM => ColorFormat { channels: Channels::Rgb, precision: Precision::SNorm8 },
            Format::A8_UNORM => ColorFormat { channels: Channels::GrayscaleAlpha, precision: Precision::U8 },
            Format::R16_UNORM => ColorFormat { channels: Channels::Grayscale, precision: Precision::U16 },
            Format::R16_SNORM => ColorFormat { channels: Channels::Grayscale, precision: Precision::SNorm16 },
            Format::R16G16_UNORM => ColorFormat { channels: Channels::Rgb, precision: Precision::U16 },
            Format::R16G16_SNORM => ColorFormat { channels: Channels::Rgb, precision: Precision::SNorm16 },
            Format::R16G16B16A16_UNORM => ColorFormat { channels: Channels::Rgba, precision: Precision::U16 },
            Format::R16G16B16A16_SNORM => ColorFormat { channels: Channels::Rgba, precision: Precision::SNorm16 },
            Format::R10G10B10A2_UNORM => ColorFormat { channels: Channels::Rgba, precision: Precision::U16 },
            Format::R16_FLOAT => ColorFormat { channels: Channels::Grayscale, precision: Precision::F16 },
            Format::R16G16_FLOAT => ColorFormat { channels: Channels::Rgb, precision: Precision::F16 },
            Format::R16G16B16A16_FLOAT => ColorFormat { channels: Channels::Rgba, precision: Precision::F16 },
            Format::R32_FLOAT => ColorFormat { channels: Channels::Grayscale, precision: Precision::F32 },
            Format::R32G32_FLOAT => ColorFormat { channels: Channels::Rgb, precision: Precision::F32 },
            Format::R32G32B32_FLOAT => ColorFormat { channels: Channels::Rgb, precision: Precision::F32 },
            Format::R32G32B32A32_FLOAT => ColorFormat { channels: Channels::Rgba, precision: Precision::F32 },
            Format::BC1_UNORM => ColorFormat { channels: Channels::Rgba, precision: Precision::U8 },
            Format::BC2_UNORM => ColorFormat { channels: Channels::Rgba, precision: Precision::U8 },
            Format::BC2_UNORM_PREMULTIPLIED_ALPHA => ColorFormat { channels: Channels::Rgba, precision: Precision::U8 },
            Format::BC3_UNORM => ColorFormat { channels: Channels::Rgba, precision: Precision::U8 },
            Format::BC3_UNORM_PREMULTIPLIED_ALPHA => ColorFormat { channels: Channels::Rgba, precision: Precision::U8 },
            Format::BC4_UNORM => ColorFormat { channels: Channels::Grayscale, precision: Precision::U8 },
            Format::BC4_SNORM => ColorFormat { channels: Channels::Grayscale, precision: Precision::SNorm8 },
            Format::BC5_UNORM => ColorFormat { channels: Channels::Rgb, precision: Precision::U8 },
            Format::BC5_SNORM => ColorFormat { channels: Channels::Rgb, precision: Precision::SNorm8 },
            Format::BC6H_UF16 => ColorFormat { channels: Channels::Rgb, precision: Precision::F16 },
            Format::BC6H_SF16 => ColorFormat { channels: Channels::Rgb, precision: Precision::F16 },
            Format::BC7_UNORM => ColorFormat { channels: Channels::Rgba, precision: Precision::U8 },
        }
    }

    pub fn color(self) -> (r: ColorFormat)
        ensures
            r == self.spec_color(),
    {
        match self {
            Format::R8G8B8_UNORM => ColorFormat { channels: Channels::Rgb, precision: Precision::U8 },
            Format::B8G8R8_UNORM => ColorFormat { channels: Channels::Rgb, precision: Precision::U8 },
            Format::R8G8B8A8_UNORM => ColorFormat { channels: Channels::Rgba, precision: Precision::U8 },
            Format::R8G8B8A8_SNORM => ColorFormat { channels: Channels::Rgba, precision: Precision::SNorm8 },
            Format::B8G8R8A8_UNORM => ColorFormat { channels: Channels::Rgba, precision: Precision::U8 },
            Format::B8G8R8X8_UNORM => ColorFormat { channels: Channels::Rgb, precision: Precision::U8 },
            Format::B5G6R5_UNORM => ColorFormat { channels: Channels::Rgb, precision: Precision::U8 },
            Format::B5G5R5A1_UNORM => ColorFormat { channels: Channels::Rgba, precision: Precision::U8 },
            Format::B4G4R4A4_UNORM => ColorFormat { channels: Channels::Rgba, precision: Precision::U8 },
            Format::R8_UNORM => ColorFormat { channels: Channels::Grayscale, precision: Precision::U8 },
            Format::R8_SNORM => ColorFormat { channels: Channels::Grayscale, precision: Precision::SNorm8 },
            Format::R8G8_UNORM => ColorFormat { channels: Channels::Rgb, precision: Precision::U8 },
            Format::R8G8_SNORM => ColorFormat { channels: Channels::Rgb, precision: Precision::SNorm8 },
            Format::A8_UNORM => ColorFormat { channels: Channels::GrayscaleAlpha, precision: Precision::U8 },
            Format::R16_UNORM => ColorFormat { channels: Channels::Grayscale, precision: Precision::U16 },
            Format::R16_SNORM => ColorFormat { channels: Channels::Grayscale, precision: Precision::SNorm16 },
            Format::R16G16_UNORM => ColorFormat { channels: Channels::Rgb, precision: Precision::U16 },
            Format::R16G16_SNORM => ColorFormat { channels: Channels::Rgb, precision: Precision::SNorm16 },
            Format::R16G16B16A16_UNORM => ColorFormat { channels: Channels::Rgba, precision: Precision::U16 },
            Format::R16G16B16A16_SNORM => ColorFormat { channels: Channels::Rgba, precision: Precision::SNorm16 },
            Format::R10G10B10A2_UNORM => ColorFormat { channels: Channels::Rgba, precision: Precision::U16 },
            Format::R16_FLOAT => ColorFormat { channels: Channels::Grayscale, precision: Precision::F16 },
            Format::R16G16_FLOAT => ColorFormat { channels: Channels::Rgb, precision: Precision::F16 },
            Format::R16G16B16A16_FLOAT => ColorFormat { channels: Channels::Rgba, precision: Precision::F16 },
            Format::R32_FLOAT => ColorFormat { channels: Channels::Grayscale, precision: Precision::F32 },
            Format::R32G32_FLOAT => ColorFormat { channels: Channels::Rgb, precision: Precision::F32 },
            Format::R32G32B32_FLOAT => ColorFormat { channels: Channels::Rgb, precision: Precision::F32 },
            Format::R32G32B32A32_FLOAT => ColorFormat { channels: Channels::Rgba, precision: Precision::F32 },
            Format::BC1_UNORM => ColorFormat { channels: Channels::Rgba, precision: Precision::U8 },
            Format::BC2_UNORM => ColorFormat { channels: Channels::Rgba, precision: Precision::U8 },
            Format::BC2_UNORM_PREMULTIPLIED_ALPHA => ColorFormat { channels: Channels::Rgba, precision: Precision::U8 },
            Format::BC3_UNORM => ColorFormat { channels: Channels::Rgba, precision: Precision::U8 },
            Format::BC3_UNORM_PREMULTIPLIED_ALPHA => ColorFormat { channels: Channels::Rgba, precision: Precision::U8 },
            Format::BC4_UNORM => ColorFormat { channels: Channels::Grayscale, precision: Precision::U8 },
            Format::BC4_SNORM => ColorFormat { channels: Channels::Grayscale, precision: Precision::SNorm8 },
            Format::BC5_UNORM => ColorFormat { channels: Channels::Rgb, precision: Precision::U8 },
            Format::BC5_SNORM => ColorFormat { channels: Channels::Rgb, precision: Precision::SNorm8 },
            Format::BC6H_UF16 => ColorFormat { channels: Channels::Rgb, precision: Precision::F16 },
            Format::BC6H_SF16 => ColorFormat { channels: Channels::Rgb, precision: Precision::F16 },
            Format::BC7_UNORM => ColorFormat { channels: Channels::Rgba, precision: Precision::U8 },
        }
    }
}

impl Format {
    /// The block geometry of the format.
    pub open spec fn spec_pixel_info(self) -> PixelInfo {
        match self {
            Format::R8G8B8_UNORM => PixelInfo { bytes_per_block: 3, block_width: 1, block_height: 1 },
            Format::B8G8R8_UNORM => PixelInfo { bytes_per_block: 3, block_width: 1, block_height: 1 },
            Format::R8G8B8A8_UNORM => PixelInfo { bytes_per_block: 4, block_width: 1, block_height: 1 },
            Format::R8G8B8A8_SNORM => PixelInfo { bytes_per_block: 4, block_width: 1, block_height: 1 },
            Format::B8G8R8A8_UNORM => PixelInfo { bytes_per_block: 4, block_width: 1, block_height: 1 },
            Format::B8G8R8X8_UNORM => PixelInfo { bytes_per_block: 4, block_width: 1, block_height: 1 },
            Format::B5G6R5_UNORM => PixelInfo { bytes_per_block: 2, block_width: 1, block_height: 1 },
            Format::B5G5R5A1_UNORM => PixelInfo { bytes_per_block: 2, block_width: 1, block_height: 1 },
            Format::B4G4R4A4_UNORM => PixelInfo { bytes_per_block: 2, block_width: 1, block_height: 1 },
            Format::R8_UNORM => PixelInfo { bytes_per_block: 1, block_width: 1, block_height: 1 },
            Format::R8_SNORM => PixelInfo { bytes_per_block: 1, block_width: 1, block_height: 1 },
            Format::R8G8_UNORM => PixelInfo { bytes_per_block: 2, block_width: 1, block_height: 1 },
            Format::R8G8_SNORM => PixelInfo { bytes_per_block: 2, block_width: 1, block_height: 1 },
            Format::A8_UNORM => PixelInfo { bytes_per_block: 1, block_width: 1, block_height: 1 },
            Format::R16_UNORM => PixelInfo { bytes_per_block: 2, block_width: 1, block_height: 1 },
            Format::R16_SNORM => PixelInfo { bytes_per_block: 2, block_width: 1, block_height: 1 },
            Format::R16G16_UNORM => PixelInfo { bytes_per_block: 4, block_width: 1, block_height: 1 },
            Format::R16G16_SNORM => PixelInfo { bytes_per_block: 4, block_width: 1, block_height: 1 },
            Format::R16G16B16A16_UNORM => PixelInfo { bytes_per_block: 8, block_width: 1, block_height: 1 },
            Format::R16G16B16A16_SNORM => PixelInfo { bytes_per_block: 8, block_width: 1, block_height: 1 },
            Format::R10G10B10A2_UNORM => PixelInfo { bytes_per_block: 4, block_width: 1, block_height: 1 },
            Format::R16_FLOAT => PixelInfo { bytes_per_block: 2, block_width: 1, block_height: 1 },
            Format::R16G16_FLOAT => PixelInfo { bytes_per_block: 4, block_width: 1, block_height: 1 },
            Format::R16G16B16A16_FLOAT => PixelInfo { bytes_per_block: 8, block_width: 1, block_height: 1 },
            Format::R32_FLOAT => PixelInfo { bytes_per_block: 4, block_width: 1, block_height: 1 },
            Format::R32G32_FLOAT => PixelInfo { bytes_per_block: 8, block_width: 1, block_height: 1 },
            Format::R32G32B32_FLOAT => PixelInfo { bytes_per_block: 12, block_width: 1, block_height: 1 },
            Format::R32G32B32A32_FLOAT => PixelInfo { bytes_per_block: 16, block_width: 1, block_height: 1 },
            Format::BC1_UNORM => PixelInfo { bytes_per_block: 8, block_width: 4, block_height: 4 },
            Format::BC2_UNORM => PixelInfo { bytes_per_block: 16, block_width: 4, block_height: 4 },
            Format::BC2_UNORM_PREMULTIPLIED_ALPHA => PixelInfo { bytes_per_block: 16, block_width: 4, block_height: 4 },
            Format::BC3_UNORM => PixelInfo { bytes_per_block: 16, block_width: 4, block_height: 4 },
            Format::BC3_UNORM_PREMULTIPLIED_ALPHA => PixelInfo { bytes_per_block: 16, block_width: 4, block_height: 4 },
            Format::BC4_UNORM => PixelInfo { bytes_per_block: 8, block_width: 4, block_height: 4 },
            Format::BC4_SNORM => PixelInfo { bytes_per_block: 8, block_width: 4, block_height: 4 },
            Format::BC5_UNORM => PixelInfo { bytes_per_block: 16, block_width: 4, block_height: 4 },
            Format::BC5_SNORM => PixelInfo { bytes_per_block: 16, block_width: 4, block_height: 4 },
            Format::BC6H_UF16 => PixelInfo { bytes_per_block: 16, block_width: 4, block_height: 4 },
            Format::BC6H_SF16 => PixelInfo { bytes_per_block: 16, block_width: 4, block_height: 4 },
            Format::BC7_UNORM => PixelInfo { bytes_per_block: 16, block_width: 4, block_height: 4 },
        }
    }

    pub fn pixel_info(self) -> (r: PixelInfo)
        ensures
            r == self.spec_pixel_info(),
            r.wf(),
    {
        match self {
            Format::R8G8B8_UNORM => PixelInfo { bytes_per_block: 3, block_width: 1, block_height: 1 },
            Format::B8G8R8_UNORM => PixelInfo { bytes_per_block: 3, block_width: 1, block_height: 1 },
            Format::R8G8B8A8_UNORM => PixelInfo { bytes_per_block: 4, block_width: 1, block_height: 1 },
            Format::R8G8B8A8_SNORM => PixelInfo { bytes_per_block: 4, block_width: 1, block_height: 1 },
            Format::B8G8R8A8_UNORM => PixelInfo { bytes_per_block: 4, block_width: 1, block_height: 1 },
            Format::B8G8R8X8_UNORM => PixelInfo { bytes_per_block: 4, block_width: 1, block_height: 1 },
            Format::B5G6R5_UNORM => PixelInfo { bytes_per_block: 2, block_width: 1, block_height: 1 },
            Format::B5G5R5A1_UNORM => PixelInfo { bytes_per_block: 2, block_width: 1, block_height: 1 },
            Format::B4G4R4A4_UNORM => PixelInfo { bytes_per_block: 2, block_width: 1, block_height: 1 },
            Format::R8_UNORM => PixelInfo { bytes_per_block: 1, block_width: 1, block_height: 1 },
            Format::R8_SNORM => PixelInfo { bytes_per_block: 1, block_width: 1, block_height: 1 },
            Format::R8G8_UNORM => PixelInfo { bytes_per_block: 2, block_width: 1, block_height: 1 },
            Format::R8G8_SNORM => PixelInfo { bytes_per_block: 2, block_width: 1, block_height: 1 },
            Format::A8_UNORM => PixelInfo { bytes_per_block: 1, block_width: 1, block_height: 1 },
            Format::R16_UNORM => PixelInfo { bytes_per_block: 2, block_width: 1, block_height: 1 },
            Format::R16_SNORM => PixelInfo { bytes_per_block: 2, block_width: 1, block_height: 1 },
            Format::R16G16_UNORM => PixelInfo { bytes_per_block: 4, block_width: 1, block_height: 1 },
            Format::R16G16_SNORM => PixelInfo { bytes_per_block: 4, block_width: 1, block_height: 1 },
            Format::R16G16B16A16_UNORM => PixelInfo { bytes_per_block: 8, block_width: 1, block_height: 1 },
            Format::R16G16B16A16_SNORM => PixelInfo { bytes_per_block: 8, block_width: 1, block_height: 1 },
            Format::R10G10B10A2_UNORM => PixelInfo { bytes_per_block: 4, block_width: 1, block_height: 1 },
            Format::R16_FLOAT => PixelInfo { bytes_per_block: 2, block_width: 1, block_height: 1 },
            Format::R16G16_FLOAT => PixelInfo { bytes_per_block: 4, block_width: 1, block_height: 1 },
            Format::R16G16B16A16_FLOAT => PixelInfo { bytes_per_block: 8, block_width: 1, block_height: 1 },
            Format::R32_FLOAT => PixelInfo { bytes_per_block: 4, block_width: 1, block_height: 1 },
            Format::R32G32_FLOAT => PixelInfo { bytes_per_block: 8, block_width: 1, block_height: 1 },
            Format::R32G32B32_FLOAT => PixelInfo { bytes_per_block: 12, block_width: 1, block_height: 1 },
            Format::R32G32B32A32_FLOAT => PixelInfo { bytes_per_block: 16, block_width: 1, block_height: 1 },
            Format::BC1_UNORM => PixelInfo { bytes_per_block: 8, block_width: 4, block_height: 4 },
            Format::BC2_UNORM => PixelInfo { bytes_per_block: 16, block_width: 4, block_height: 4 },
            Format::BC2_UNORM_PREMULTIPLIED_ALPHA => PixelInfo { bytes_per_block: 16, block_width: 4, block_height: 4 },
            Format::BC3_UNORM => PixelInfo { bytes_per_block: 16, block_width: 4, block_height: 4 },
            Format::BC3_UNORM_PREMULTIPLIED_ALPHA => PixelInfo { bytes_per_block: 16, block_width: 4, block_height: 4 },
            Format::BC4_UNORM => PixelInfo { bytes_per_block: 8, block_width: 4, block_height: 4 },
            Format::BC4_SNORM => PixelInfo { bytes_per_block: 8, block_width: 4, block_height: 4 },
            Format::BC5_UNORM => PixelInfo { bytes_per_block: 16, block_width: 4, block_height: 4 },
            Format::BC5_SNORM => PixelInfo { bytes_per_block: 16, block_width: 4, block_height: 4 },
            Format::BC6H_UF16 => PixelInfo { bytes_per_block: 16, block_width: 4, block_height: 4 },
            Format::BC6H_SF16 => PixelInfo { bytes_per_block: 16, block_width: 4, block_height: 4 },
            Format::BC7_UNORM => PixelInfo { bytes_per_block: 16, block_width: 4, block_height: 4 },
        }
    }
}

impl Format {
    /// What the encoder of the format offers; `None` for a format that can only be decoded.
    pub open spec fn spec_encoding_support(self) -> Option<EncodingSupport> {
        match self {
            Format::R8G8B8_UNORM => Some(
                EncodingSupport {
                    dithering: Dithering { color: false, alpha: false },
                    size_multiple: SizeMultiple { width_multiple: 1, height_multiple: 1 },
                },
            ),
            Format::B8G8R8_UNORM => Some(
                EncodingSupport {
                    dithering: Dithering { color: false, alpha: false },
                    size_multiple: SizeMultiple { width_multiple: 1, height_multiple: 1 },
                },
            ),
            Format::R8G8B8A8_UNORM => Some(
                EncodingSupport {
                    dithering: Dithering { color: false, alpha: false },
                    size_multiple: SizeMultiple { width_multiple: 1, height_multiple: 1 },
                },
            ),
            Format::R8G8B8A8_SNORM => Some(
                EncodingSupport {
                    dithering: Dithering { color: false, alpha: false },
                    size_multiple: SizeMultiple { width_multiple: 1, height_multiple: 1 },
                },
            ),
            Format::B8G8R8A8_UNORM => Some(
                EncodingSupport {
                    dithering: Dithering { color: false, alpha: false },
                    size_multiple: SizeMultiple { width_multiple: 1, height_multiple: 1 },
                },
            ),
            Format::B8G8R8X8_UNORM => Some(
                EncodingSupport {
                    dithering: Dithering { color: false, alpha: false },
                    size_multiple: SizeMultiple { width_multiple: 1, height_multiple: 1 },
                },
            ),
            Format::B5G6R5_UNORM => Some(
                EncodingSupport {
                    dithering: Dithering { color: true, alpha: false },
                    size_multiple: SizeMultiple { width_multiple: 1, height_multiple: 1 },
                },
            ),
            Format::B5G5R5A1_UNORM => Some(
                EncodingSupport {
                    dithering: Dithering { color: true, alpha: true },
                    size_multiple: SizeMultiple { width_multiple: 1, height_multiple: 1 },
                },
            ),
            Format::B4G4R4A4_UNORM => Some(
                EncodingSupport {
                    dithering: Dithering { color: true, alpha: true },
                    size_multiple: SizeMultiple { width_multiple: 1, height_multiple: 1 },
                },
            ),
            Format::R8_UNORM => Some(
                EncodingSupport {
                    dithering: Dithering { color: false, alpha: false },
                    size_multiple: SizeMultiple { width_multiple: 1, height_multiple: 1 },
                },
            ),
            Format::R8_SNORM => Some(
                EncodingSupport {
                    dithering: Dithering { color: false, alpha: false },
                    size_multiple: SizeMultiple { width_multiple: 1, height_multiple: 1 },
                },
            ),
            Format::R8G8_UNORM => Some(
                EncodingSupport {
                    dithering: Dithering { color: false, alpha: false },
                    size_multiple: SizeMultiple { width_multiple: 1, height_multiple: 1 },
                },
            ),
            Format::R8G8_SNORM => Some(
                EncodingSupport {
                    dithering: Dithering { color: false, alpha: false },
                    size_multiple: SizeMultiple { width_multiple: 1, height_multiple: 1 },
                },
            ),
            Format::A8_UNORM => Some(
                EncodingSupport {
                    dithering: Dithering { color: false, alpha: false },
                    size_multiple: SizeMultiple { width_multiple: 1, height_multiple: 1 },
                },
            ),
            Format::R16_UNORM => Some(
                EncodingSupport {
                    dithering: Dithering { color: false, alpha: false },
                    size_multiple: SizeMultiple { width_multiple: 1, height_multiple: 1 },
                },
            ),
            Format::R16_SNORM => Some(
                EncodingSupport {
                    dithering: Dithering { color: false, alpha: false },
                    size_multiple: SizeMultiple { width_multiple: 1, height_multiple: 1 },
                },
            ),
            Format::R16G16_UNORM => Some(
                EncodingSupport {
                    dithering: Dithering { color: false, alpha: false },
                    size_multiple: SizeMultiple { width_multiple: 1, height_multiple: 1 },
                },
            ),
            Format::R16G16_SNORM => Some(
                EncodingSupport {
                    dithering: Dithering { color: false, alpha: false },
                    size_multiple: SizeMultiple { width_multiple: 1, height_multiple: 1 },
                },
            ),
            Format::R16G16B16A16_UNORM => Some(
                EncodingSupport {
                    dithering: Dithering { color: false, alpha: false },
                    size_multiple: SizeMultiple { width_multiple: 1, height_multiple: 1 },
                },
            ),
            Format::R16G16B16A16_SNORM => Some(
                EncodingSupport {
                    dithering: Dithering { color: false, alpha: false },
                    size_multiple: SizeMultiple { width_multiple: 1, height_multiple: 1 },
                },
            ),
            Format::R10G10B10A2_UNORM => Some(
                EncodingSupport {
                    dithering: Dithering { color: false, alpha: false },
                    size_multiple: SizeMultiple { width_multiple: 1, height_multiple: 1 },
                },
            ),
            Format::R16_FLOAT => Some(
                EncodingSupport {
                    dithering: Dithering { color: false, alpha: false },
                    size_multiple: SizeMultiple { width_multiple: 1, height_multiple: 1 },
                },
            ),
            Format::R16G16_FLOAT => Some(
                EncodingSupport {
                    dithering: Dithering { color: false, alpha: false },
                    size_multiple: SizeMultiple { width_multiple: 1, height_multiple: 1 },
                },
            ),
            Format::R16G16B16A16_FLOAT => Some(
                EncodingSupport {
                    dithering: Dithering { color: false, alpha: false },
                    size_multiple: SizeMultiple { width_multiple: 1, height_multiple: 1 },
                },
            ),
            Format::R32_FLOAT => Some(
                EncodingSupport {
                    dithering: Dithering { color: false, alpha: false },
                    size_multiple: SizeMultiple { width_multiple: 1, height_multiple: 1 },
                },
            ),
            Format::R32G32_FLOAT => Some(
                EncodingSupport {
                    dithering: Dithering { color: false, alpha: false },
                    size_multiple: SizeMultiple { width_multiple: 1, height_multiple: 1 },
                },
            ),
            Format::R32G32B32_FLOAT => Some(
                EncodingSupport {
                    dithering: Dithering { color: false, alpha: false },
                    size_multiple: SizeMultiple { width_multiple: 1, height_multiple: 1 },
                },
            ),
            Format::R32G32B32A32_FLOAT => Some(
                EncodingSupport {
                    dithering: Dithering { color: false, alpha: false },
                    size_multiple: SizeMultiple { width_multiple: 1, height_multiple: 1 },
                },
            ),
            Format::BC1_UNORM => Some(
                EncodingSupport {
                    dithering: Dithering { color: true, alpha: true },
                    size_multiple: SizeMultiple { width_multiple: 1, height_multiple: 1 },
                },
            ),
            Format::BC2_UNORM => Some(
                EncodingSupport {
                    dithering: Dithering { color: true, alpha: true },
                    size_multiple: SizeMultiple { width_multiple: 1, height_multiple: 1 },
                },
            ),
            Format::BC2_UNORM_PREMULTIPLIED_ALPHA => Some(
                EncodingSupport {
                    dithering: Dithering { color: true, alpha: true },
                    size_multiple: SizeMultiple { width_multiple: 1, height_multiple: 1 },
                },
            ),
            Format::BC3_UNORM => Some(
                EncodingSupport {
                    dithering: Dithering { color: true, alpha: true },
                    size_multiple: SizeMultiple { width_multiple: 1, height_multiple: 1 },
                },
            ),
            Format::BC3_UNORM_PREMULTIPLIED_ALPHA => Some(
                EncodingSupport {
                    dithering: Dithering { color: true, alpha: true },
                    size_multiple: SizeMultiple { width_multiple: 1, height_multiple: 1 },
                },
            ),
            Format::BC4_UNORM => Some(
                EncodingSupport {
                    dithering: Dithering { color: true, alpha: false },
                    size_multiple: SizeMultiple { width_multiple: 1, height_multiple: 1 },
                },
            ),
            Format::BC4_SNORM => Some(
                EncodingSupport {
                    dithering: Dithering { color: true, alpha: false },
                    size_multiple: SizeMultiple { width_multiple: 1, height_multiple: 1 },
                },
            ),
            Format::BC5_UNORM => Some(
                EncodingSupport {
                    dithering: Dithering { color: true, alpha: false },
                    size_multiple: SizeMultiple { width_multiple: 1, height_multiple: 1 },
                },
            ),
            Format::BC5_SNORM => Some(
                EncodingSupport {
                    dithering: Dithering { color: true, alpha: false },
                    size_multiple: SizeMultiple { width_multiple: 1, height_multiple: 1 },
                },
            ),
            Format::BC6H_UF16 => None,
            Format::BC6H_SF16 => None,
            Format::BC7_UNORM => None,
        }
    }

    pub fn encoding_support(self) -> (r: Option<EncodingSupport>)
        ensures
            r == self.spec_encoding_support(),
    {
        match self {
            Format::R8G8B8_UNORM => Some(
                EncodingSupport {
                    dithering: Dithering { color: false, alpha: false },
                    size_multiple: SizeMultiple { width_multiple: 1, height_multiple: 1 },
                },
            ),
            Format::B8G8R8_UNORM => Some(
                EncodingSupport {
                    dithering: Dithering { color: false, alpha: false },
                    size_multiple: SizeMultiple { width_multiple: 1, height_multiple: 1 },
                },
            ),
            Format::R8G8B8A8_UNORM => Some(
                EncodingSupport {
                    dithering: Dithering { color: false, alpha: false },
                    size_multiple: SizeMultiple { width_multiple: 1, height_multiple: 1 },
                },
            ),
            Format::R8G8B8A8_SNORM => Some(
                EncodingSupport {
                    dithering: Dithering { color: false, alpha: false },
                    size_multiple: SizeMultiple { width_multiple: 1, height_multiple: 1 },
                },
            ),
            Format::B8G8R8A8_UNORM => Some(
                EncodingSupport {
                    dithering: Dithering { color: false, alpha: false },
                    size_multiple: SizeMultiple { width_multiple: 1, height_multiple: 1 },
                },
            ),
            Format::B8G8R8X8_UNORM => Some(
                EncodingSupport {
                    dithering: Dithering { color: false, alpha: false },
                    size_multiple: SizeMultiple { width_multiple: 1, height_multiple: 1 },
                },
            ),
            Format::B5G6R5_UNORM => Some(
                EncodingSupport {
                    dithering: Dithering { color: true, alpha: false },
                    size_multiple: SizeMultiple { width_multiple: 1, height_multiple: 1 },
                },
            ),
            Format::B5G5R5A1_UNORM => Some(
                EncodingSupport {
                    dithering: Dithering { color: true, alpha: true },
                    size_multiple: SizeMultiple { width_multiple: 1, height_multiple: 1 },
                },
            ),
            Format::B4G4R4A4_UNORM => Some(
                EncodingSupport {
                    dithering: Dithering { color: true, alpha: true },
                    size_multiple: SizeMultiple { width_multiple: 1, height_multiple: 1 },
                },
            ),
            Format::R8_UNORM => Some(
                EncodingSupport {
                    dithering: Dithering { color: false, alpha: false },
                    size_multiple: SizeMultiple { width_multiple: 1, height_multiple: 1 },
                },
            ),
            Format::R8_SNORM => Some(
                EncodingSupport {
                    dithering: Dithering { color: false, alpha: false },
                    size_multiple: SizeMultiple { width_multiple: 1, height_multiple: 1 },
                },
            ),
            Format::R8G8_UNORM => Some(
                EncodingSupport {
                    dithering: Dithering { color: false, alpha: false },
                    size_multiple: SizeMultiple { width_multiple: 1, height_multiple: 1 },
                },
            ),
            Format::R8G8_SNORM => Some(
                EncodingSupport {
                    dithering: Dithering { color: false, alpha: false },
                    size_multiple: SizeMultiple { width_multiple: 1, height_multiple: 1 },
                },
            ),
            Format::A8_UNORM => Some(
                EncodingSupport {
                    dithering: Dithering { color: false, alpha: false },
                    size_multiple: SizeMultiple { width_multiple: 1, height_multiple: 1 },
                },
            ),
            Format::R16_UNORM => Some(
                EncodingSupport {
                    dithering: Dithering { color: false, alpha: false },
                    size_multiple: SizeMultiple { width_multiple: 1, height_multiple: 1 },
                },
            ),
            Format::R16_SNORM => Some(
                EncodingSupport {
                    dithering: Dithering { color: false, alpha: false },
                    size_multiple: SizeMultiple { width_multiple: 1, height_multiple: 1 },
                },
            ),
            Format::R16G16_UNORM => Some(
                EncodingSupport {
                    dithering: Dithering { color: false, alpha: false },
                    size_multiple: SizeMultiple { width_multiple: 1, height_multiple: 1 },
                },
            ),
            Format::R16G16_SNORM => Some(
                EncodingSupport {
                    dithering: Dithering { color: false, alpha: false },
                    size_multiple: SizeMultiple { width_multiple: 1, height_multiple: 1 },
                },
            ),
            Format::R16G16B16A16_UNORM => Some(
                EncodingSupport {
                    dithering: Dithering { color: false, alpha: false },
                    size_multiple: SizeMultiple { width_multiple: 1, height_multiple: 1 },
                },
            ),
            Format::R16G16B16A16_SNORM => Some(
                EncodingSupport {
                    dithering: Dithering { color: false, alpha: false },
                    size_multiple: SizeMultiple { width_multiple: 1, height_multiple: 1 },
                },
            ),
            Format::R10G10B10A2_UNORM => Some(
                EncodingSupport {
                    dithering: Dithering { color: false, alpha: false },
                    size_multiple: SizeMultiple { width_multiple: 1, height_multiple: 1 },
                },
            ),
            Format::R16_FLOAT => Some(
                EncodingSupport {
                    dithering: Dithering { color: false, alpha: false },
                    size_multiple: SizeMultiple { width_multiple: 1, height_multiple: 1 },
                },
            ),
            Format::R16G16_FLOAT => Some(
                EncodingSupport {
                    dithering: Dithering { color: false, alpha: false },
                    size_multiple: SizeMultiple { width_multiple: 1, height_multiple: 1 },
                },
            ),
            Format::R16G16B16A16_FLOAT => Some(
                EncodingSupport {
                    dithering: Dithering { color: false, alpha: false },
                    size_multiple: SizeMultiple { width_multiple: 1, height_multiple: 1 },
                },
            ),
            Format::R32_FLOAT => Some(
                EncodingSupport {
                    dithering: Dithering { color: false, alpha: false },
                    size_multiple: SizeMultiple { width_multiple: 1, height_multiple: 1 },
                },
            ),
            Format::R32G32_FLOAT => Some(
                EncodingSupport {
                    dithering: Dithering { color: false, alpha: false },
                    size_multiple: SizeMultiple { width_multiple: 1, height_multiple: 1 },
                },
            ),
            Format::R32G32B32_FLOAT => Some(
                EncodingSupport {
                    dithering: Dithering { color: false, alpha: false },
                    size_multiple: SizeMultiple { width_multiple: 1, height_multiple: 1 },
                },
            ),
            Format::R32G32B32A32_FLOAT => Some(
                EncodingSupport {
                    dithering: Dithering { color: false, alpha: false },
                    size_multiple: SizeMultiple { width_multiple: 1, height_multiple: 1 },
                },
            ),
            Format::BC1_UNORM => Some(
                EncodingSupport {
                    dithering: Dithering { color: true, alpha: true },
                    size_multiple: SizeMultiple { width_multiple: 1, height_multiple: 1 },
                },
            ),
            Format::BC2_UNORM => Some(
                EncodingSupport {
                    dithering: Dithering { color: true, alpha: true },
                    size_multiple: SizeMultiple { width_multiple: 1, height_multiple: 1 },
                },
            ),
            Format::BC2_UNORM_PREMULTIPLIED_ALPHA => Some(
                EncodingSupport {
                    dithering: Dithering { color: true, alpha: true },
                    size_multiple: SizeMultiple { width_multiple: 1, height_multiple: 1 },
                },
            ),
            Format::BC3_UNORM => Some(
                EncodingSupport {
                    dithering: Dithering { color: true, alpha: true },
                    size_multiple: SizeMultiple { width_multiple: 1, height_multiple: 1 },
                },
            ),
            Format::BC3_UNORM_PREMULTIPLIED_ALPHA => Some(
                EncodingSupport {
                    dithering: Dithering { color: true, alpha: true },
                    size_multiple: SizeMultiple { width_multiple: 1, height_multiple: 1 },
                },
            ),
            Format::BC4_UNORM => Some(
                EncodingSupport {
                    dithering: Dithering { color: true, alpha: false },
                    size_multiple: SizeMultiple { width_multiple: 1, height_multiple: 1 },
                },
            ),
            Format::BC4_SNORM => Some(
                EncodingSupport {
                    dithering: Dithering { color: true, alpha: false },
                    size_multiple: SizeMultiple { width_multiple: 1, height_multiple: 1 },
                },
            ),
            Format::BC5_UNORM => Some(
                EncodingSupport {
                    dithering: Dithering { color: true, alpha: false },
                    size_multiple: SizeMultiple { width_multiple: 1, height_multiple: 1 },
                },
            ),
            Format::BC5_SNORM => Some(
                EncodingSupport {
                    dithering: Dithering { color: true, alpha: false },
                    size_multiple: SizeMultiple { width_multiple: 1, height_multiple: 1 },
                },
            ),
            Format::BC6H_UF16 => None,
            Format::BC6H_SF16 => None,
            Format::BC7_UNORM => None,
        }
    }
}

impl Format {
    /// The name of the format.
    pub open spec fn spec_name(self) -> Seq<char> {
        match self {
            Format::R8G8B8_UNORM => "R8G8B8_UNORM"@,
            Format::B8G8R8_UNORM => "B8G8R8_UNORM"@,
            Format::R8G8B8A8_UNORM => "R8G8B8A8_UNORM"@,
            Format::R8G8B8A8_SNORM => "R8G8B8A8_SNORM"@,
            Format::B8G8R8A8_UNORM => "B8G8R8A8_UNORM"@,
            Format::B8G8R8X8_UNORM => "B8G8R8X8_UNORM"@,
            Format::B5G6R5_UNORM => "B5G6R5_UNORM"@,
            Format::B5G5R5A1_UNORM => "B5G5R5A1_UNORM"@,
            Format::B4G4R4A4_UNORM => "B4G4R4A4_UNORM"@,
            Format::R8_UNORM => "R8_UNORM"@,
            Format::R8_SNORM => "R8_SNORM"@,
            Format::R8G8_UNORM => "R8G8_UNORM"@,
            Format::R8G8_SNORM => "R8G8_SNORM"@,
            Format::A8_UNORM => "A8_UNORM"@,
            Format::R16_UNORM => "R16_UNORM"@,
            Format::R16_SNORM => "R16_SNORM"@,
            Format::R16G16_UNORM => "R16G16_UNORM"@,
            Format::R16G16_SNORM => "R16G16_SNORM"@,
            Format::R16G16B16A16_UNORM => "R16G16B16A16_UNORM"@,
            Format::R16G16B16A16_SNORM => "R16G16B16A16_SNORM"@,
            Format::R10G10B10A2_UNORM => "R10G10B10A2_UNORM"@,
            Format::R16_FLOAT => "R16_FLOAT"@,
            Format::R16G16_FLOAT => "R16G16_FLOAT"@,
            Format::R16G16B16A16_FLOAT => "R16G16B16A16_FLOAT"@,
            Format::R32_FLOAT => "R32_FLOAT"@,
            Format::R32G32_FLOAT => "R32G32_FLOAT"@,
            Format::R32G32B32_FLOAT => "R32G32B32_FLOAT"@,
            Format::R32G32B32A32_FLOAT => "R32G32B32A32_FLOAT"@,
            Format::BC1_UNORM => "BC1_UNORM"@,
            Format::BC2_UNORM => "BC2_UNORM"@,
            Format::BC2_UNORM_PREMULTIPLIED_ALPHA => "BC2_UNORM_PREMULTIPLIED_ALPHA"@,
            Format::BC3_UNORM => "BC3_UNORM"@,
            Format::BC3_UNORM_PREMULTIPLIED_ALPHA => "BC3_UNORM_PREMULTIPLIED_ALPHA"@,
            Format::BC4_UNORM => "BC4_UNORM"@,
            Format::BC4_SNORM => "BC4_SNORM"@,
            Format::BC5_UNORM => "BC5_UNORM"@,
            Format::BC5_SNORM => "BC5_SNORM"@,
            Format::BC6H_UF16 => "BC6H_UF16"@,
            Format::BC6H_SF16 => "BC6H_SF16"@,
            Format::BC7_UNORM => "BC7_UNORM"@,
        }
    }

    pub fn name(self) -> (r: &'static str)
        ensures
            r@ == self.spec_name(),
    {
        match self {
            Format::R8G8B8_UNORM => "R8G8B8_UNORM",
            Format::B8G8R8_UNORM => "B8G8R8_UNORM",
            Format::R8G8B8A8_UNORM => "R8G8B8A8_UNORM",
            Format::R8G8B8A8_SNORM => "R8G8B8A8_SNORM",
            Format::B8G8R8A8_UNORM => "B8G8R8A8_UNORM",
            Format::B8G8R8X8_UNORM => "B8G8R8X8_UNORM",
            Format::B5G6R5_UNORM => "B5G6R5_UNORM",
            Format::B5G5R5A1_UNORM => "B5G5R5A1_UNORM",
            Format::B4G4R4A4_UNORM => "B4G4R4A4_UNORM",
            Format::R8_UNORM => "R8_UNORM",
            Format::R8_SNORM => "R8_SNORM",
            Format::R8G8_UNORM => "R8G8_UNORM",
            Format::R8G8_SNORM => "R8G8_SNORM",
            Format::A8_UNORM => "A8_UNORM",
            Format::R16_UNORM => "R16_UNORM",
            Format::R16_SNORM => "R16_SNORM",
            Format::R16G16_UNORM => "R16G16_UNORM",
            Format::R16G16_SNORM => "R16G16_SNORM",
            Format::R16G16B16A16_UNORM => "R16G16B16A16_UNORM",
            Format::R16G16B16A16_SNORM => "R16G16B16A16_SNORM",
            Format::R10G10B10A2_UNORM => "R10G10B10A2_UNORM",
            Format::R16_FLOAT => "R16_FLOAT",
            Format::R16G16_FLOAT => "R16G16_FLOAT",
            Format::R16G16B16A16_FLOAT => "R16G16B16A16_FLOAT",
            Format::R32_FLOAT => "R32_FLOAT",
            Format::R32G32_FLOAT => "R32G32_FLOAT",
            Format::R32G32B32_FLOAT => "R32G32B32_FLOAT",
            Format::R32G32B32A32_FLOAT => "R32G32B32A32_FLOAT",
            Format::BC1_UNORM => "BC1_UNORM",
            Format::BC2_UNORM => "BC2_UNORM",
            Format::BC2_UNORM_PREMULTIPLIED_ALPHA => "BC2_UNORM_PREMULTIPLIED_ALPHA",
            Format::BC3_UNORM => "BC3_UNORM",
            Format::BC3_UNORM_PREMULTIPLIED_ALPHA => "BC3_UNORM_PREMULTIPLIED_ALPHA",
            Format::BC4_UNORM => "BC4_UNORM",
            Format::BC4_SNORM => "BC4_SNORM",
            Format::BC5_UNORM => "BC5_UNORM",
            Format::BC5_SNORM => "BC5_SNORM",
            Format::BC6H_UF16 => "BC6H_UF16",
            Format::BC6H_SF16 => "BC6H_SF16",
            Format::BC7_UNORM => "BC7_UNORM",
        }
    }

    /// The format that a DXGI format number names, if the catalog has it.
    pub open spec fn spec_from_dxgi(dxgi: DxgiFormat) -> Option<Format> {
        let v = dxgi.0;
        if v == 2 {
            Some(Format::R32G32B32A32_FLOAT)
        } else if v == 6 {
            Some(Format::R32G32B32_FLOAT)
        } else if v == 10 {
            Some(Format::R16G16B16A16_FLOAT)
        } else if v == 11 {
            Some(Format::R16G16B16A16_UNORM)
        } else if v == 13 {
            Some(Format::R16G16B16A16_SNORM)
        } else if v == 16 {
            Some(Format::R32G32_FLOAT)
        } else if v == 24 {
            Some(Format::R10G10B10A2_UNORM)
        } else if v == 28 {
            Some(Format::R8G8B8A8_UNORM)
        } else if v == 29 {
            Some(Format::R8G8B8A8_UNORM)
        } else if v == 31 {
            Some(Format::R8G8B8A8_SNORM)
        } else if v == 34 {
            Some(Format::R16G16_FLOAT)
        } else if v == 35 {
            Some(Format::R16G16_UNORM)
        } else if v == 37 {
            Some(Format::R16G16_SNORM)
        } else if v == 41 {
            Some(Format::R32_FLOAT)
        } else if v == 49 {
            Some(Format::R8G8_UNORM)
        } else if v == 51 {
            Some(Format::R8G8_SNORM)
        } else if v == 54 {
            Some(Format::R16_FLOAT)
        } else if v == 56 {
            Some(Format::R16_UNORM)
        } else if v == 58 {
            Some(Format::R16_SNORM)
        } else if v == 61 {
            Some(Format::R8_UNORM)
        } else if v == 63 {
            Some(Format::R8_SNORM)
        } else if v == 65 {
            Some(Format::A8_UNORM)
        } else if v == 71 {
            Some(Format::BC1_UNORM)
        } else if v == 72 {
            Some(Format::BC1_UNORM)
        } else if v == 74 {
            Some(Format::BC2_UNORM)
        } else if v == 75 {
            Some(Format::BC2_UNORM)
        } else if v == 77 {
            Some(Format::BC3_UNORM)
        } else if v == 78 {
            Some(Format::BC3_UNORM)
        } else if v == 80 {
            Some(Format::BC4_UNORM)
        } else if v == 81 {
            Some(Format::BC4_SNORM)
        } else if v == 83 {
            Some(Format::BC5_UNORM)
        } else if v == 84 {
            Some(Format::BC5_SNORM)
        } else if v == 85 {
            Some(Format::B5G6R5_UNORM)
        } else if v == 86 {
            Some(Format::B5G5R5A1_UNORM)
        } else if v == 87 {
            Some(Format::B8G8R8A8_UNORM)
        } else if v == 88 {
            Some(Format::B8G8R8X8_UNORM)
        } else if v == 91 {
            Some(Format::B8G8R8A8_UNORM)
        } else if v == 93 {
            Some(Format::B8G8R8X8_UNORM)
        } else if v == 95 {
            Some(Format::BC6H_UF16)
        } else if v == 96 {
            Some(Format::BC6H_SF16)
        } else if v == 98 {
            Some(Format::BC7_UNORM)
        } else if v == 99 {
            Some(Format::BC7_UNORM)
        } else if v == 115 {
            Some(Format::B4G4R4A4_UNORM)
        } else {
            None
        }
    }

    pub fn from_dxgi(dxgi: DxgiFormat) -> (r: Option<Format>)
        ensures
            r == Self::spec_from_dxgi(dxgi),
    {
        let v: u32 = dxgi.0;
        if v == 2 {
            Some(Format::R32G32B32A32_FLOAT)
        } else if v == 6 {
            Some(Format::R32G32B32_FLOAT)
        } else if v == 10 {
            Some(Format::R16G16B16A16_FLOAT)
        } else if v == 11 {
            Some(Format::R16G16B16A16_UNORM)
        } else if v == 13 {
            Some(Format::R16G16B16A16_SNORM)
        } else if v == 16 {
            Some(Format::R32G32_FLOAT)
        } else if v == 24 {
            Some(Format::R10G10B10A2_UNORM)
        } else if v == 28 {
            Some(Format::R8G8B8A8_UNORM)
        } else if v == 29 {
            Some(Format::R8G8B8A8_UNORM)
        } else if v == 31 {
            Some(Format::R8G8B8A8_SNORM)
        } else if v == 34 {
            Some(Format::R16G16_FLOAT)
        } else if v == 35 {
            Some(Format::R16G16_UNORM)
        } else if v == 37 {
            Some(Format::R16G16_SNORM)
        } else if v == 41 {
            Some(Format::R32_FLOAT)
        } else if v == 49 {
            Some(Format::R8G8_UNORM)
        } else if v == 51 {
            Some(Format::R8G8_SNORM)
        } else if v == 54 {
            Some(Format::R16_FLOAT)
        } else if v == 56 {
            Some(Format::R16_UNORM)
        } else if v == 58 {
            Some(Format::R16_SNORM)
        } else if v == 61 {
            Some(Format::R8_UNORM)
        } else if v == 63 {
            Some(Format::R8_SNORM)
        } else if v == 65 {
            Some(Format::A8_UNORM)
        } else if v == 71 {
            Some(Format::BC1_UNORM)
        } else if v == 72 {
            Some(Format::BC1_UNORM)
        } else if v == 74 {
            Some(Format::BC2_UNORM)
        } else if v == 75 {
            Some(Format::BC2_UNORM)
        } else if v == 77 {
            Some(Format::BC3_UNORM)
        } else if v == 78 {
            Some(Format::BC3_UNORM)
        } else if v == 80 {
            Some(Format::BC4_UNORM)
        } else if v == 81 {
            Some(Format::BC4_SNORM)
        } else if v == 83 {
            Some(Format::BC5_UNORM)
        } else if v == 84 {
            Some(Format::BC5_SNORM)
        } else if v == 85 {
            Some(Format::B5G6R5_UNORM)
        } else if v == 86 {
            Some(Format::B5G5R5A1_UNORM)
        } else if v == 87 {
            Some(Format::B8G8R8A8_UNORM)
        } else if v == 88 {
            Some(Format::B8G8R8X8_UNORM)
        } else if v == 91 {
            Some(Format::B8G8R8A8_UNORM)
        } else if v == 93 {
            Some(Format::B8G8R8X8_UNORM)
        } else if v == 95 {
            Some(Format::BC6H_UF16)
        } else if v == 96 {
            Some(Format::BC6H_SF16)
        } else if v == 98 {
            Some(Format::BC7_UNORM)
        } else if v == 99 {
            Some(Format::BC7_UNORM)
        } else if v == 115 {
            Some(Format::B4G4R4A4_UNORM)
        } else {
            None
        }
    }

    /// The format that a FourCC tag names, if the catalog has it.
    pub open spec fn spec_from_four_cc(four_cc: FourCC) -> Option<Format> {
        let v = four_cc.0;
        if v == 0x24 {
            Some(Format::R16G16B16A16_UNORM)
        } else if v == 0x6E {
            Some(Format::R16G16B16A16_SNORM)
        } else if v == 0x6F {
            Some(Format::R16_FLOAT)
        } else if v == 0x70 {
            Some(Format::R16G16_FLOAT)
        } else if v == 0x71 {
            Some(Format::R16G16B16A16_FLOAT)
        } else if v == 0x72 {
            Some(Format::R32_FLOAT)
        } else if v == 0x73 {
            Some(Format::R32G32_FLOAT)
        } else if v == 0x74 {
            Some(Format::R32G32B32A32_FLOAT)
        } else if v == 0x3149_5441 {
            Some(Format::BC4_UNORM)
        } else if v == 0x3154_5844 {
            Some(Format::BC1_UNORM)
        } else if v == 0x3249_5441 {
            Some(Format::BC5_UNORM)
        } else if v == 0x3254_5844 {
            Some(Format::BC2_UNORM_PREMULTIPLIED_ALPHA)
        } else if v == 0x3354_5844 {
            Some(Format::BC2_UNORM)
        } else if v == 0x3454_5844 {
            Some(Format::BC3_UNORM_PREMULTIPLIED_ALPHA)
        } else if v == 0x3554_5844 {
            Some(Format::BC3_UNORM)
        } else if v == 0x5334_4342 {
            Some(Format::BC4_SNORM)
        } else if v == 0x5335_4342 {
            Some(Format::BC5_SNORM)
        } else if v == 0x5534_4342 {
            Some(Format::BC4_UNORM)
        } else if v == 0x5535_4342 {
            Some(Format::BC5_UNORM)
        } else {
            None
        }
    }

    pub fn from_four_cc(four_cc: FourCC) -> (r: Option<Format>)
        ensures
            r == Self::spec_from_four_cc(four_cc),
    {
        let v: u32 = four_cc.0;
        if v == 0x24 {
            Some(Format::R16G16B16A16_UNORM)
        } else if v == 0x6E {
            Some(Format::R16G16B16A16_SNORM)
        } else if v == 0x6F {
            Some(Format::R16_FLOAT)
        } else if v == 0x70 {
            Some(Format::R16G16_FLOAT)
        } else if v == 0x71 {
            Some(Format::R16G16B16A16_FLOAT)
        } else if v == 0x72 {
            Some(Format::R32_FLOAT)
        } else if v == 0x73 {
            Some(Format::R32G32_FLOAT)
        } else if v == 0x74 {
            Some(Format::R32G32B32A32_FLOAT)
        } else if v == 0x3149_5441 {
            Some(Format::BC4_UNORM)
        } else if v == 0x3154_5844 {
            Some(Format::BC1_UNORM)
        } else if v == 0x3249_5441 {
            Some(Format::BC5_UNORM)
        } else if v == 0x3254_5844 {
            Some(Format::BC2_UNORM_PREMULTIPLIED_ALPHA)
        } else if v == 0x3354_5844 {
            Some(Format::BC2_UNORM)
        } else if v == 0x3454_5844 {
            Some(Format::BC3_UNORM_PREMULTIPLIED_ALPHA)
        } else if v == 0x3554_5844 {
            Some(Format::BC3_UNORM)
        } else if v == 0x5334_4342 {
            Some(Format::BC4_SNORM)
        } else if v == 0x5335_4342 {
            Some(Format::BC5_SNORM)
        } else if v == 0x5534_4342 {
            Some(Format::BC4_UNORM)
        } else if v == 0x5535_4342 {
            Some(Format::BC5_UNORM)
        } else {
            None
        }
    }

    /// The alpha mask that counts: the mask of the record where its flags
    /// declare alpha, zero where they do not.
    pub open spec fn spec_alpha_mask(pf: PixelFormat) -> u32 {
        if pf.flags & (DDPF_ALPHAPIXELS | DDPF_ALPHA) != 0 {
            pf.a_bit_mask
        } else {
            0
        }
    }

    /// The format that the bit masks of a pixel format record describe, if
    /// the catalog has it.
    pub open spec fn spec_from_masks(pf: PixelFormat) -> Option<Format> {
        let bits = pf.rgb_bit_count;
        let r = pf.r_bit_mask;
        let g = pf.g_bit_mask;
        let b = pf.b_bit_mask;
        let a = Self::spec_alpha_mask(pf);
        if bits == 24 && r == 0xFF && g == 0xFF00 && b == 0xFF_0000 && a == 0 {
            Some(Format::R8G8B8_UNORM)
        } else if bits == 24 && r == 0xFF_0000 && g == 0xFF00 && b == 0xFF && a == 0 {
            Some(Format::B8G8R8_UNORM)
        } else if bits == 32 && r == 0xFF && g == 0xFF00 && b == 0xFF_0000 && a == 0xFF00_0000 {
            Some(Format::R8G8B8A8_UNORM)
        } else if bits == 32 && r == 0xFF_0000 && g == 0xFF00 && b == 0xFF && a == 0xFF00_0000 {
            Some(Format::B8G8R8A8_UNORM)
        } else if bits == 32 && r == 0xFF_0000 && g == 0xFF00 && b == 0xFF && a == 0 {
            Some(Format::B8G8R8X8_UNORM)
        } else if bits == 16 && r == 0xF800 && g == 0x7E0 && b == 0x1F && a == 0 {
            Some(Format::B5G6R5_UNORM)
        } else if bits == 16 && r == 0x7C00 && g == 0x3E0 && b == 0x1F && a == 0x8000 {
            Some(Format::B5G5R5A1_UNORM)
        } else if bits == 16 && r == 0xF00 && g == 0xF0 && b == 0xF && a == 0xF000 {
            Some(Format::B4G4R4A4_UNORM)
        } else if bits == 8 && r == 0xFF && g == 0 && b == 0 && a == 0 {
            Some(Format::R8_UNORM)
        } else if bits == 16 && r == 0xFF && g == 0xFF00 && b == 0 && a == 0 {
            Some(Format::R8G8_UNORM)
        } else if bits == 8 && r == 0 && g == 0 && b == 0 && a == 0xFF {
            Some(Format::A8_UNORM)
        } else if bits == 16 && r == 0xFFFF && g == 0 && b == 0 && a == 0 {
            Some(Format::R16_UNORM)
        } else if bits == 32 && r == 0xFFFF && g == 0xFFFF_0000 && b == 0 && a == 0 {
            Some(Format::R16G16_UNORM)
        } else if bits == 32 && r == 0x3FF && g == 0xF_FC00 && b == 0x3FF0_0000 && a == 0xC000_0000 {
            Some(Format::R10G10B10A2_UNORM)
        } else {
            None
        }
    }

    pub fn from_masks(pf: &PixelFormat) -> (f: Option<Format>)
        ensures
            f == Self::spec_from_masks(*pf),
    {
        let bits: u32 = pf.rgb_bit_count;
        let r: u32 = pf.r_bit_mask;
        let g: u32 = pf.g_bit_mask;
        let b: u32 = pf.b_bit_mask;
        let a: u32 = if pf.flags & (DDPF_ALPHAPIXELS | DDPF_ALPHA) != 0 {
            pf.a_bit_mask
        } else {
            0
        };
        if bits == 24 && r == 0xFF && g == 0xFF00 && b == 0xFF_0000 && a == 0 {
            Some(Format::R8G8B8_UNORM)
        } else if bits == 24 && r == 0xFF_0000 && g == 0xFF00 && b == 0xFF && a == 0 {
            Some(Format::B8G8R8_UNORM)
        } else if bits == 32 && r == 0xFF && g == 0xFF00 && b == 0xFF_0000 && a == 0xFF00_0000 {
            Some(Format::R8G8B8A8_UNORM)
        } else if bits == 32 && r == 0xFF_0000 && g == 0xFF00 && b == 0xFF && a == 0xFF00_0000 {
            Some(Format::B8G8R8A8_UNORM)
        } else if bits == 32 && r == 0xFF_0000 && g == 0xFF00 && b == 0xFF && a == 0 {
            Some(Format::B8G8R8X8_UNORM)
        } else if bits == 16 && r == 0xF800 && g == 0x7E0 && b == 0x1F && a == 0 {
            Some(Format::B5G6R5_UNORM)
        } else if bits == 16 && r == 0x7C00 && g == 0x3E0 && b == 0x1F && a == 0x8000 {
            Some(Format::B5G5R5A1_UNORM)
        } else if bits == 16 && r == 0xF00 && g == 0xF0 && b == 0xF && a == 0xF000 {
            Some(Format::B4G4R4A4_UNORM)
        } else if bits == 8 && r == 0xFF && g == 0 && b == 0 && a == 0 {
            Some(Format::R8_UNORM)
        } else if bits == 16 && r == 0xFF && g == 0xFF00 && b == 0 && a == 0 {
            Some(Format::R8G8_UNORM)
        } else if bits == 8 && r == 0 && g == 0 && b == 0 && a == 0xFF {
            Some(Format::A8_UNORM)
        } else if bits == 16 && r == 0xFFFF && g == 0 && b == 0 && a == 0 {
            Some(Format::R16_UNORM)
        } else if bits == 32 && r == 0xFFFF && g == 0xFFFF_0000 && b == 0 && a == 0 {
            Some(Format::R16G16_UNORM)
        } else if bits == 32 && r == 0x3FF && g == 0xF_FC00 && b == 0x3FF0_0000 && a == 0xC000_0000 {
            Some(Format::R10G10B10A2_UNORM)
        } else {
            None
        }
    }

    /// The format that a header declares: by its header extension where it
    /// has one, else by its FourCC tag where the pixel format is named by
    /// one, else by its bit masks.
    pub open spec fn spec_from_header(header: Header) -> Result<Format, FormatError> {
        match header.dx10 {
            Some(d) => match Self::spec_from_dxgi(d.dxgi_format) {
                Some(f) => Ok(f),
                None => Err(FormatError::UnsupportedDxgiFormat(d.dxgi_format)),
            },
            None => if header.pixel_format.is_four_cc() {
                match Self::spec_from_four_cc(header.pixel_format.four_cc) {
                    Some(f) => Ok(f),
                    None => Err(FormatError::UnsupportedFourCC(header.pixel_format.four_cc)),
                }
            } else {
                match Self::spec_from_masks(header.pixel_format) {
                    Some(f) => Ok(f),
                    None => Err(FormatError::UnsupportedPixelFormat),
                }
            },
        }
    }

    /// Finds the format that `header` declares.
    pub fn from_header(header: &Header) -> (r: Result<Format, FormatError>)
        ensures
            r == Self::spec_from_header(*header),
    {
        match header.dx10 {
            Some(d) => match Self::from_dxgi(d.dxgi_format) {
                Some(f) => Ok(f),
                None => Err(FormatError::UnsupportedDxgiFormat(d.dxgi_format)),
            },
            None => if header.pixel_format.has_four_cc() {
                match Self::from_four_cc(header.pixel_format.four_cc) {
                    Some(f) => Ok(f),
                    None => Err(FormatError::UnsupportedFourCC(header.pixel_format.four_cc)),
                }
            } else {
                match Self::from_masks(&header.pixel_format) {
                    Some(f) => Ok(f),
                    None => Err(FormatError::UnsupportedPixelFormat),
                }
            },
        }
    }
}

} // verus!
