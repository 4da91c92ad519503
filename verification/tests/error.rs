use dds::{
    DecodeError, DxgiFormat, EncodeError, Format, FormatError, FourCC, HeaderError, LayoutError,
    SizeMultiple,
};

#[test]
fn decimal_text() {
    let mut s = String::from("n=");
    dds::text::append_decimal(&mut s, 0);
    s.push(',');
    dds::text::append_decimal(&mut s, 7);
    s.push(',');
    dds::text::append_decimal(&mut s, 10);
    s.push(',');
    dds::text::append_decimal(&mut s, 1_234_567_890);
    s.push(',');
    dds::text::append_decimal(&mut s, u64::MAX);
    assert_eq!(s, "n=0,7,10,1234567890,18446744073709551615");
    assert_eq!(dds::text::digit_str(0), "0");
    assert_eq!(dds::text::digit_str(9), "9");
}

#[test]
fn format_error_messages() {
    assert_eq!(
        FormatError::UnsupportedDxgiFormat(DxgiFormat(1)).message(),
        "DXGI format DxgiFormat(1) is not supported for decoding"
    );
    assert_eq!(
        FormatError::UnsupportedDxgiFormat(DxgiFormat(1)).message(),
        format!("DXGI format {:?} is not supported for decoding", DxgiFormat(1))
    );
    assert_eq!(
        FormatError::UnsupportedFourCC(FourCC(827611204)).message(),
        format!("Unsupported {:?} in DX10 header extension", FourCC(827611204))
    );
    assert_eq!(
        FormatError::UnsupportedFourCC(FourCC(0)).message(),
        "Unsupported FourCC(0) in DX10 header extension"
    );
    assert_eq!(
        FormatError::UnsupportedPixelFormat.message(),
        "Unsupported pixel format in the DDS header"
    );
}

#[test]
fn layout_error_messages() {
    assert_eq!(
        LayoutError::TooManyMipMaps(256).message(),
        "Too many mipmaps (256), the maximum supported is 255"
    );
    assert_eq!(LayoutError::MissingDepth.message(), "Missing depth for a texture 3D/volume");
    assert_eq!(
        LayoutError::ZeroDimension.message(),
        "The width, height, or depth of the texture is zero"
    );
    assert_eq!(
        LayoutError::ArraySizeTooBig(4_000_000_000).message(),
        "Array size 4000000000 is too large"
    );
    assert_eq!(
        LayoutError::DataLayoutTooBig.message(),
        "Data layout described by the header is too large"
    );
    assert_eq!(LayoutError::InvalidCubeMapFaces.message(), "Cube map faces must be 2D textures");
}

#[test]
fn header_error_messages() {
    assert_eq!(
        HeaderError::InvalidMagicBytes([1, 20, 255, 0]).message(),
        "Invalid magic bytes [1, 20, 255, 0], expected [68, 68, 83, 32] (ASCII: 'DDS ')"
    );
    assert_eq!(
        HeaderError::InvalidMagicBytes(*b"RIFF").message(),
        format!(
            "Invalid magic bytes {:?}, expected {:?} (ASCII: 'DDS ')",
            b"RIFF", b"DDS "
        )
    );
    assert_eq!(
        HeaderError::InvalidHeaderSize(0).message(),
        "Invalid DDS header size of 0, expected 124"
    );
    assert_eq!(
        HeaderError::InvalidPixelFormatSize(24).message(),
        "Invalid DDS header pixel format size of 24, expected 32"
    );
    assert_eq!(
        HeaderError::InvalidRgbBitCount(12).message(),
        "Invalid DDS header pixel format rgb_bit_count of 12, expected 8, 16, 24, or 32"
    );
    assert_eq!(
        HeaderError::InvalidDxgiFormat(4294967295).message(),
        "Invalid DXGI format 4294967295 in DX10 header extension"
    );
    let dimensions = [
        (0, "Invalid resource dimension 0 (Unknown) in DX10 header extension"),
        (1, "Invalid resource dimension 1 (Buffer) in DX10 header extension"),
        (2, "Invalid resource dimension 2 (Texture1D) in DX10 header extension"),
        (3, "Invalid resource dimension 3 (Texture2D) in DX10 header extension"),
        (4, "Invalid resource dimension 4 (Texture3D) in DX10 header extension"),
        (5, "Invalid resource dimension 5 in DX10 header extension"),
        (100, "Invalid resource dimension 100 in DX10 header extension"),
    ];
    for (dimension, message) in dimensions {
        assert_eq!(HeaderError::InvalidResourceDimension(dimension).message(), message);
    }
    assert_eq!(
        HeaderError::InvalidAlphaMode(7).message(),
        "Invalid alpha mode 7 in DX10 header extension"
    );
    assert_eq!(
        HeaderError::InvalidArraySizeForTexture3D(2).message(),
        "Invalid array size 2 for a texture 3D in DX10 header extension"
    );
    assert_eq!(
        HeaderError::UnexpectedEof.message(),
        "I/O error: failed to fill whole buffer"
    );
}

#[test]
fn decode_error_messages() {
    assert_eq!(
        DecodeError::RectOutOfBounds.message(),
        "Rectangle is out of bounds of the image size"
    );
    assert_eq!(
        DecodeError::RowPitchTooSmall { required_minimum: 256 }.message(),
        "Row pitch too small: Must be at least `color.bytes_per_pixel() * rect.width` == 256 bytes"
    );
    assert_eq!(
        DecodeError::RectBufferTooSmall { required_minimum: 16384 }.message(),
        "Buffer too small for rectangle: required at least 16384 bytes"
    );
    assert_eq!(DecodeError::UnexpectedSurfaceSize.message(), "Unexpected size of the surface");
    assert_eq!(
        DecodeError::CannotSkipMipmapsInVolume.message(),
        "Cannot skip mipmaps within a volume texture"
    );
    assert_eq!(DecodeError::NoMoreSurfaces.message(), "No more surfaces to decode");
    assert_eq!(DecodeError::NotACubeMap.message(), "The DDS file is not a cube map");
    assert_eq!(DecodeError::MemoryLimitExceeded.message(), "Memory limit exceeded");
    assert_eq!(
        DecodeError::Layout(LayoutError::MissingDepth).message(),
        "Missing depth for a texture 3D/volume"
    );
    assert_eq!(
        DecodeError::Format(FormatError::UnsupportedPixelFormat).message(),
        "Unsupported pixel format in the DDS header"
    );
    assert_eq!(
        DecodeError::Header(HeaderError::InvalidHeaderSize(3)).message(),
        "Header error: Invalid DDS header size of 3, expected 124"
    );
}

#[test]
fn encode_error_messages() {
    assert_eq!(
        EncodeError::UnsupportedFormat(Format::BC7_UNORM).message(),
        "Unsupported format: BC7_UNORM"
    );
    assert_eq!(
        EncodeError::UnsupportedFormat(Format::BC6H_SF16).message(),
        format!("Unsupported format: {:?}", Format::BC6H_SF16)
    );
    let multiple = SizeMultiple { width_multiple: 2, height_multiple: 1 };
    assert_eq!(
        EncodeError::InvalidSize(multiple).message(),
        "Size is not a multiple of SizeMultiple { width_multiple: 2, height_multiple: 1 }"
    );
    assert_eq!(
        EncodeError::InvalidSize(multiple).message(),
        format!("Size is not a multiple of {:?}", multiple)
    );
    assert_eq!(EncodeError::EmptySurface.message(), "Surface has a width or height of 0");
    assert_eq!(EncodeError::UnexpectedSurfaceSize.message(), "Unexpected size of the surface");
    assert_eq!(
        EncodeError::TooManySurfaces.message(),
        "Too many surfaces are attempted to written"
    );
    assert_eq!(EncodeError::MissingSurfaces.message(), "Not enough surfaces have been written");
    assert_eq!(
        EncodeError::Layout(LayoutError::TooManyMipMaps(300)).message(),
        "Layout error: Too many mipmaps (300), the maximum supported is 255"
    );
}

#[test]
fn every_format_is_named_as_it_is_written() {
    let formats = [
        Format::R8G8B8_UNORM,
        Format::B8G8R8_UNORM,
        Format::R8G8B8A8_UNORM,
        Format::R8G8B8A8_SNORM,
        Format::B8G8R8A8_UNORM,
        Format::B8G8R8X8_UNORM,
        Format::B5G6R5_UNORM,
        Format::B5G5R5A1_UNORM,
        Format::B4G4R4A4_UNORM,
        Format::R8_UNORM,
        Format::R8_SNORM,
        Format::R8G8_UNORM,
        Format::R8G8_SNORM,
        Format::A8_UNORM,
        Format::R16_UNORM,
        Format::R16_SNORM,
        Format::R16G16_UNORM,
        Format::R16G16_SNORM,
        Format::R16G16B16A16_UNORM,
        Format::R16G16B16A16_SNORM,
        Format::R10G10B10A2_UNORM,
        Format::R16_FLOAT,
        Format::R16G16_FLOAT,
        Format::R16G16B16A16_FLOAT,
        Format::R32_FLOAT,
        Format::R32G32_FLOAT,
        Format::R32G32B32_FLOAT,
        Format::R32G32B32A32_FLOAT,
        Format::BC1_UNORM,
        Format::BC2_UNORM,
        Format::BC2_UNORM_PREMULTIPLIED_ALPHA,
        Format::BC3_UNORM,
        Format::BC3_UNORM_PREMULTIPLIED_ALPHA,
        Format::BC4_UNORM,
        Format::BC4_SNORM,
        Format::BC5_UNORM,
        Format::BC5_SNORM,
        Format::BC6H_UF16,
        Format::BC6H_SF16,
        Format::BC7_UNORM,
    ];
    for format in formats {
        assert_eq!(format.name(), format!("{:?}", format));
        // every format has blocks with an extent and a size
        let pixel = format.pixel_info();
        assert!(pixel.bytes_per_block >= 1);
        assert!(pixel.block_width == 1 || pixel.block_width == 4);
        assert_eq!(pixel.block_width, pixel.block_height);
        // an uncompressed format stores its native color or more
        if pixel.block_width == 1 {
            assert!(pixel.bytes_per_block >= format.color().precision.size());
        }
    }
}

#[test]
fn errors_of_lower_layers_convert() {
    assert_eq!(
        DecodeError::from(LayoutError::MissingDepth),
        DecodeError::Layout(LayoutError::MissingDepth)
    );
    assert_eq!(
        DecodeError::from(FormatError::UnsupportedPixelFormat),
        DecodeError::Format(FormatError::UnsupportedPixelFormat)
    );
    assert_eq!(
        DecodeError::from(HeaderError::UnexpectedEof),
        DecodeError::Header(HeaderError::UnexpectedEof)
    );
    assert_eq!(
        EncodeError::from(LayoutError::ZeroDimension),
        EncodeError::Layout(LayoutError::ZeroDimension)
    );
    let through: Result<(), EncodeError> = (|| {
        Err(LayoutError::DataLayoutTooBig)?;
        Ok(())
    })();
    assert_eq!(through, Err(EncodeError::Layout(LayoutError::DataLayoutTooBig)));
}
