//! The error types of the library and their messages.

use vstd::prelude::*;
use vstd::std_specs::convert::FromSpecImpl;
use vstd::string::StringExecFns;

use crate::format::{Format, SizeMultiple};
use crate::header::{DxgiFormat, FourCC};
use crate::text::{append_decimal, decimal};

verus! {

/// Why a header declares no format of the catalog.
#[derive(Debug, Clone, Copy, PartialEq, Eq, Structural)]
#[non_exhaustive]
pub enum FormatError {
    UnsupportedDxgiFormat(DxgiFormat),
    UnsupportedFourCC(FourCC),
    UnsupportedPixelFormat,
}

/// Why a header describes no data layout.
#[derive(Debug, Clone, Copy, PartialEq, Eq, Structural)]
#[non_exhaustive]
pub enum LayoutError {
    /// More than 255 mipmap levels.
    TooManyMipMaps(u32),
    /// A volume without a depth.
    MissingDepth,
    /// The width, height, or depth of the texture is zero.
    ZeroDimension,
    /// The array size is not one that the shape allows: it is over the
    /// caller's limit, it overflows the number of cube map faces, or it is
    /// not 1 for a volume.
    ArraySizeTooBig(u32),
    /// The data section would take more bytes than 64 bits count.
    DataLayoutTooBig,
    /// A cube map without all six faces, or with faces that are not 2D
    /// textures.
    InvalidCubeMapFaces,
}

/// Why a byte sequence is not a DDS header.
#[derive(Debug, Clone, Copy, PartialEq, Eq)]
#[non_exhaustive]
pub enum HeaderError {
    InvalidMagicBytes([u8; 4]),
    InvalidHeaderSize(u32),
    InvalidPixelFormatSize(u32),
    InvalidRgbBitCount(u32),
    InvalidDxgiFormat(u32),
    InvalidResourceDimension(u32),
    InvalidAlphaMode(u32),
    InvalidArraySizeForTexture3D(u32),
    /// The input ends before the header does.
    UnexpectedEof,
}


/// Why a decoder refuses an operation.
#[derive(Debug, Clone, Copy, PartialEq, Eq)]
#[non_exhaustive]
pub enum DecodeError {
    /// The rectangle does not lie within the surface.
    RectOutOfBounds,
    /// The row pitch is less than the bytes of one row of the rectangle.
    RowPitchTooSmall { required_minimum: usize },
    /// The buffer is less than the rows of the rectangle take.
    RectBufferTooSmall { required_minimum: usize },
    /// The image does not have the size of the surface.
    UnexpectedSurfaceSize,
    /// Mipmaps cannot be skipped from within a level of a volume.
    CannotSkipMipmapsInVolume,
    /// Every surface has been read.
    NoMoreSurfaces,
    /// The file holds no cube map.
    NotACubeMap,
    /// A buffer would take more memory than the decoder may use.
    MemoryLimitExceeded,
    Layout(LayoutError),
    Format(FormatError),
    Header(HeaderError),
}

/// Why an encoder refuses an operation.
#[derive(Debug, Clone, Copy, PartialEq, Eq, Structural)]
#[non_exhaustive]
pub enum EncodeError {
    /// The format can only be decoded.
    UnsupportedFormat(Format),
    /// The size of the image is not a multiple of what the format asks for.
    InvalidSize(SizeMultiple),
    /// The image has a width or height of 0.
    EmptySurface,
    /// The image does not have the size of the surface.
    UnexpectedSurfaceSize,
    /// Every surface has been written.
    TooManySurfaces,
    /// Not every surface has been written.
    MissingSurfaces,
    Layout(LayoutError),
}


/// The name of a resource dimension in brackets, or nothing for a number
/// that names none.
pub open spec fn dimension_label(dimension: u32) -> Seq<char> {
    if dimension == 0 {
        " (Unknown)"@
    } else if dimension == 1 {
        " (Buffer)"@
    } else if dimension == 2 {
        " (Texture1D)"@
    } else if dimension == 3 {
        " (Texture2D)"@
    } else if dimension == 4 {
        " (Texture3D)"@
    } else {
        ""@
    }
}

/// The name of a resource dimension in brackets.
pub fn dimension_label_str(dimension: u32) -> (s: &'static str)
    ensures
        s@ == dimension_label(dimension),
{
    if dimension == 0 {
        " (Unknown)"
    } else if dimension == 1 {
        " (Buffer)"
    } else if dimension == 2 {
        " (Texture1D)"
    } else if dimension == 3 {
        " (Texture2D)"
    } else if dimension == 4 {
        " (Texture3D)"
    } else {
        ""
    }
}

impl FormatError {
    /// The message of the error.
    pub open spec fn spec_message(self) -> Seq<char> {
        match self {
            FormatError::UnsupportedDxgiFormat(format) => "DXGI format DxgiFormat("@ + decimal(format.0 as nat) + ") is not supported for decoding"@,
            FormatError::UnsupportedFourCC(four_cc) => "Unsupported FourCC("@ + decimal(four_cc.0 as nat) + ") in DX10 header extension"@,
            FormatError::UnsupportedPixelFormat => "Unsupported pixel format in the DDS header"@,
        }
    }

    /// The message of the error as text.
    pub fn message(&self) -> (s: String)
        ensures
            s@ == self.spec_message(),
    {
        match self {
            FormatError::UnsupportedDxgiFormat(format) => {
                let mut s = String::from_str("DXGI format DxgiFormat(");
                append_decimal(&mut s, format.0 as u64);
                s.append(") is not supported for decoding");
                assert(s@ =~= self.spec_message());
                s
            },
            FormatError::UnsupportedFourCC(four_cc) => {
                let mut s = String::from_str("Unsupported FourCC(");
                append_decimal(&mut s, four_cc.0 as u64);
                s.append(") in DX10 header extension");
                assert(s@ =~= self.spec_message());
                s
            },
            FormatError::UnsupportedPixelFormat => {
                let mut s = String::from_str("Unsupported pixel format in the DDS header");
                s
            },
        }
    }
}

impl LayoutError {
    /// The message of the error.
    pub open spec fn spec_message(self) -> Seq<char> {
        match self {
            LayoutError::TooManyMipMaps(mipmaps) => "Too many mipmaps ("@ + decimal(mipmaps as nat) + "), the maximum supported is 255"@,
            LayoutError::MissingDepth => "Missing depth for a texture 3D/volume"@,
            LayoutError::ZeroDimension => "The width, height, or depth of the texture is zero"@,
            LayoutError::ArraySizeTooBig(size) => "Array size "@ + decimal(size as nat) + " is too large"@,
            LayoutError::DataLayoutTooBig => "Data layout described by the header is too large"@,
            LayoutError::InvalidCubeMapFaces => "Cube map faces must be 2D textures"@,
        }
    }

    /// The message of the error as text.
    pub fn message(&self) -> (s: String)
        ensures
            s@ == self.spec_message(),
    {
        match self {
            LayoutError::TooManyMipMaps(mipmaps) => {
                let mut s = String::from_str("Too many mipmaps (");
                append_decimal(&mut s, *mipmaps as u64);
                s.append("), the maximum supported is 255");
                assert(s@ =~= self.spec_message());
                s
            },
            LayoutError::MissingDepth => {
                let mut s = String::from_str("Missing depth for a texture 3D/volume");
                s
            },
            LayoutError::ZeroDimension => {
                let mut s = String::from_str("The width, height, or depth of the texture is zero");
                s
            },
            LayoutError::ArraySizeTooBig(size) => {
                let mut s = String::from_str("Array size ");
                append_decimal(&mut s, *size as u64);
                s.append(" is too large");
                assert(s@ =~= self.spec_message());
                s
            },
            LayoutError::DataLayoutTooBig => {
                let mut s = String::from_str("Data layout described by the header is too large");
                s
            },
            LayoutError::InvalidCubeMapFaces => {
                let mut s = String::from_str("Cube map faces must be 2D textures");
                s
            },
        }
    }
}

impl HeaderError {
    /// The message of the error.
    pub open spec fn spec_message(self) -> Seq<char> {
        match self {
            HeaderError::InvalidMagicBytes(bytes) => "Invalid magic bytes ["@ + decimal(bytes[0] as nat) + ", "@ + decimal(bytes[1] as nat) + ", "@ + decimal(bytes[2] as nat) + ", "@ + decimal(bytes[3] as nat) + "], expected [68, 68, 83, 32] (ASCII: 'DDS ')"@,
            HeaderError::InvalidHeaderSize(size) => "Invalid DDS header size of "@ + decimal(size as nat) + ", expected 124"@,
            HeaderError::InvalidPixelFormatSize(size) => "Invalid DDS header pixel format size of "@ + decimal(size as nat) + ", expected 32"@,
            HeaderError::InvalidRgbBitCount(count) => "Invalid DDS header pixel format rgb_bit_count of "@ + decimal(count as nat) + ", expected 8, 16, 24, or 32"@,
            HeaderError::InvalidDxgiFormat(format) => "Invalid DXGI format "@ + decimal(format as nat) + " in DX10 header extension"@,
            HeaderError::InvalidResourceDimension(dimension) => "Invalid resource dimension "@ + decimal(dimension as nat) + dimension_label(dimension) + " in DX10 header extension"@,
            HeaderError::InvalidAlphaMode(mode) => "Invalid alpha mode "@ + decimal(mode as nat) + " in DX10 header extension"@,
            HeaderError::InvalidArraySizeForTexture3D(array_size) => "Invalid array size "@ + decimal(array_size as nat) + " for a texture 3D in DX10 header extension"@,
            HeaderError::UnexpectedEof => "I/O error: failed to fill whole buffer"@,
        }
    }

    /// The message of the error as text.
    pub fn message(&self) -> (s: String)
        ensures
            s@ == self.spec_message(),
    {
        match self {
            HeaderError::InvalidMagicBytes(bytes) => {
                let mut s = String::from_str("Invalid magic bytes [");
                append_decimal(&mut s, bytes[0] as u64);
                s.append(", ");
                append_decimal(&mut s, bytes[1] as u64);
                s.append(", ");
                append_decimal(&mut s, bytes[2] as u64);
                s.append(", ");
                append_decimal(&mut s, bytes[3] as u64);
                s.append("], expected [68, 68, 83, 32] (ASCII: 'DDS ')");
                assert(s@ =~= self.spec_message());
                s
            },
            HeaderError::InvalidHeaderSize(size) => {
                let mut s = String::from_str("Invalid DDS header size of ");
                append_decimal(&mut s, *size as u64);
                s.append(", expected 124");
                assert(s@ =~= self.spec_message());
                s
            },
            HeaderError::InvalidPixelFormatSize(size) => {
                let mut s = String::from_str("Invalid DDS header pixel format size of ");
                append_decimal(&mut s, *size as u64);
                s.append(", expected 32");
                assert(s@ =~= self.spec_message());
                s
            },
            HeaderError::InvalidRgbBitCount(count) => {
                let mut s = String::from_str("Invalid DDS header pixel format rgb_bit_count of ");
                append_decimal(&mut s, *count as u64);
                s.append(", expected 8, 16, 24, or 32");
                assert(s@ =~= self.spec_message());
                s
            },
            HeaderError::InvalidDxgiFormat(format) => {
                let mut s = String::from_str("Invalid DXGI format ");
                append_decimal(&mut s, *format as u64);
                s.append(" in DX10 header extension");
                assert(s@ =~= self.spec_message());
                s
            },
            HeaderError::InvalidResourceDimension(dimension) => {
                let mut s = String::from_str("Invalid resource dimension ");
                append_decimal(&mut s, *dimension as u64);
                s.append(dimension_label_str(*dimension));
                s.append(" in DX10 header extension");
                assert(s@ =~= self.spec_message());
                s
            },
            HeaderError::InvalidAlphaMode(mode) => {
                let mut s = String::from_str("Invalid alpha mode ");
                append_decimal(&mut s, *mode as u64);
                s.append(" in DX10 header extension");
                assert(s@ =~= self.spec_message());
                s
            },
            HeaderError::InvalidArraySizeForTexture3D(array_size) => {
                let mut s = String::from_str("Invalid array size ");
                append_decimal(&mut s, *array_size as u64);
                s.append(" for a texture 3D in DX10 header extension");
                assert(s@ =~= self.spec_message());
                s
            },
            HeaderError::UnexpectedEof => {
                let mut s = String::from_str("I/O error: failed to fill whole buffer");
                s
            },
        }
    }
}

impl DecodeError {
    /// The message of the error; an error of a lower layer gives its own message.
    pub open spec fn spec_message(self) -> Seq<char> {
        match self {
            DecodeError::RectOutOfBounds => "Rectangle is out of bounds of the image size"@,
            DecodeError::RowPitchTooSmall { required_minimum } => "Row pitch too small: Must be at least `color.bytes_per_pixel() * rect.width` == "@ + decimal(required_minimum as nat) + " bytes"@,
            DecodeError::RectBufferTooSmall { required_minimum } => "Buffer too small for rectangle: required at least "@ + decimal(required_minimum as nat) + " bytes"@,
            DecodeError::UnexpectedSurfaceSize => "Unexpected size of the surface"@,
            DecodeError::CannotSkipMipmapsInVolume => "Cannot skip mipmaps within a volume texture"@,
            DecodeError::NoMoreSurfaces => "No more surfaces to decode"@,
            DecodeError::NotACubeMap => "The DDS file is not a cube map"@,
            DecodeError::MemoryLimitExceeded => "Memory limit exceeded"@,
            DecodeError::Layout(error) => error.spec_message(),
            DecodeError::Format(error) => error.spec_message(),
            DecodeError::Header(error) => "Header error: "@ + error.spec_message(),
        }
    }

    /// The message of the error as text.
    pub fn message(&self) -> (s: String)
        ensures
            s@ == self.spec_message(),
    {
        match self {
            DecodeError::RectOutOfBounds => {
                let mut s = String::from_str("Rectangle is out of bounds of the image size");
                s
            },
            DecodeError::RowPitchTooSmall { required_minimum } => {
                let mut s = String::from_str("Row pitch too small: Must be at least `color.bytes_per_pixel() * rect.width` == ");
                append_decimal(&mut s, *required_minimum as u64);
                s.append(" bytes");
                assert(s@ =~= self.spec_message());
                s
            },
            DecodeError::RectBufferTooSmall { required_minimum } => {
                let mut s = String::from_str("Buffer too small for rectangle: required at least ");
                append_decimal(&mut s, *required_minimum as u64);
                s.append(" bytes");
                assert(s@ =~= self.spec_message());
                s
            },
            DecodeError::UnexpectedSurfaceSize => {
                let mut s = String::from_str("Unexpected size of the surface");
                s
            },
            DecodeError::CannotSkipMipmapsInVolume => {
                let mut s = String::from_str("Cannot skip mipmaps within a volume texture");
                s
            },
            DecodeError::NoMoreSurfaces => {
                let mut s = String::from_str("No more surfaces to decode");
                s
            },
            DecodeError::NotACubeMap => {
                let mut s = String::from_str("The DDS file is not a cube map");
                s
            },
            DecodeError::MemoryLimitExceeded => {
                let mut s = String::from_str("Memory limit exceeded");
                s
            },
            DecodeError::Layout(error) => {
                let mut s = String::new();
                let inner = error.message();
                s.append(inner.as_str());
                assert(s@ =~= self.spec_message());
                s
            },
            DecodeError::Format(error) => {
                let mut s = String::new();
                let inner = error.message();
                s.append(inner.as_str());
                assert(s@ =~= self.spec_message());
                s
            },
            DecodeError::Header(error) => {
                let mut s = String::from_str("Header error: ");
                let inner = error.message();
                s.append(inner.as_str());
                assert(s@ =~= self.spec_message());
                s
            },
        }
    }
}

impl EncodeError {
    /// The message of the error; an error of a lower layer gives its own message.
    pub open spec fn spec_message(self) -> Seq<char> {
        match self {
            EncodeError::UnsupportedFormat(format) => "Unsupported format: "@ + format.spec_name(),
            EncodeError::InvalidSize(size) => "Size is not a multiple of SizeMultiple { width_multiple: "@ + decimal(size.width_multiple as nat) + ", height_multiple: "@ + decimal(size.height_multiple as nat) + " }"@,
            EncodeError::EmptySurface => "Surface has a width or height of 0"@,
            EncodeError::UnexpectedSurfaceSize => "Unexpected size of the surface"@,
            EncodeError::TooManySurfaces => "Too many surfaces are attempted to written"@,
            EncodeError::MissingSurfaces => "Not enough surfaces have been written"@,
            EncodeError::Layout(error) => "Layout error: "@ + error.spec_message(),
        }
    }

    /// The message of the error as text.
    pub fn message(&self) -> (s: String)
        ensures
            s@ == self.spec_message(),
    {
        match self {
            EncodeError::UnsupportedFormat(format) => {
                let mut s = String::from_str("Unsupported format: ");
                s.append(format.name());
                assert(s@ =~= self.spec_message());
                s
            },
            EncodeError::InvalidSize(size) => {
                let mut s = String::from_str("Size is not a multiple of SizeMultiple { width_multiple: ");
                append_decimal(&mut s, size.width_multiple as u64);
                s.append(", height_multiple: ");
                append_decimal(&mut s, size.height_multiple as u64);
                s.append(" }");
                assert(s@ =~= self.spec_message());
                s
            },
            EncodeError::EmptySurface => {
                let mut s = String::from_str("Surface has a width or height of 0");
                s
            },
            EncodeError::UnexpectedSurfaceSize => {
                let mut s = String::from_str("Unexpected size of the surface");
                s
            },
            EncodeError::TooManySurfaces => {
                let mut s = String::from_str("Too many surfaces are attempted to written");
                s
            },
            EncodeError::MissingSurfaces => {
                let mut s = String::from_str("Not enough surfaces have been written");
                s
            },
            EncodeError::Layout(error) => {
                let mut s = String::from_str("Layout error: ");
                let inner = error.message();
                s.append(inner.as_str());
                assert(s@ =~= self.spec_message());
                s
            },
        }
    }
}


impl From<LayoutError> for DecodeError {
    fn from(error: LayoutError) -> (e: DecodeError) {
        DecodeError::Layout(error)
    }
}

impl FromSpecImpl<LayoutError> for DecodeError {
    open spec fn obeys_from_spec() -> bool {
        true
    }

    open spec fn from_spec(error: LayoutError) -> DecodeError {
        DecodeError::Layout(error)
    }
}

impl From<FormatError> for DecodeError {
    fn from(error: FormatError) -> (e: DecodeError) {
        DecodeError::Format(error)
    }
}

impl FromSpecImpl<FormatError> for DecodeError {
    open spec fn obeys_from_spec() -> bool {
        true
    }

    open spec fn from_spec(error: FormatError) -> DecodeError {
        DecodeError::Format(error)
    }
}

impl From<HeaderError> for DecodeError {
    fn from(error: HeaderError) -> (e: DecodeError) {
        DecodeError::Header(error)
    }
}

impl FromSpecImpl<HeaderError> for DecodeError {
    open spec fn obeys_from_spec() -> bool {
        true
    }

    open spec fn from_spec(error: HeaderError) -> DecodeError {
        DecodeError::Header(error)
    }
}

impl From<LayoutError> for EncodeError {
    fn from(error: LayoutError) -> (e: EncodeError) {
        EncodeError::Layout(error)
    }
}

impl FromSpecImpl<LayoutError> for EncodeError {
    open spec fn obeys_from_spec() -> bool {
        true
    }

    open spec fn from_spec(error: LayoutError) -> EncodeError {
        EncodeError::Layout(error)
    }
}

} // verus!
