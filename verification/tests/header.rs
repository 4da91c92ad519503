use dds::{
    Dx10Header, DxgiFormat, FourCC, Header, HeaderError, MagicBytes, ParseOptions, PixelFormat,
    ResourceDimension,
};

fn rgba8_header(width: u32, height: u32) -> Header {
    Header {
        flags: 0x1007,
        height,
        width,
        pitch_or_linear_size: width * 4,
        depth: 0,
        mipmap_count: 0,
        reserved1: [0; 11],
        pixel_format: PixelFormat {
            size: 32,
            flags: 0x41,
            four_cc: FourCC(0),
            rgb_bit_count: 32,
            r_bit_mask: 0xFF,
            g_bit_mask: 0xFF00,
            b_bit_mask: 0xFF_0000,
            a_bit_mask: 0xFF00_0000,
        },
        caps: 0x1000,
        caps2: 0,
        caps3: 0,
        caps4: 0,
        reserved2: 0,
        dx10: None,
    }
}

fn bytes_of(h: &Header) -> Vec<u8> {
    let mut bytes = Vec::new();
    h.write(&mut bytes);
    bytes
}

fn put(bytes: &mut [u8], at: usize, v: u32) {
    bytes[at..at + 4].copy_from_slice(&v.to_le_bytes());
}

#[test]
fn header_round_trip_rgba8() {
    let h = rgba8_header(64, 32);
    let bytes = bytes_of(&h);
    assert_eq!(bytes.len(), 128);
    assert_eq!(h.len(), 128);
    assert_eq!(&bytes[0..4], b"DDS ");
    assert_eq!(&bytes[4..8], &[124, 0, 0, 0]);
    // height, then width
    assert_eq!(&bytes[12..16], &[32, 0, 0, 0]);
    assert_eq!(&bytes[16..20], &[64, 0, 0, 0]);
    // pixel format: size, flags, four_cc, bit count, masks
    assert_eq!(&bytes[76..80], &[32, 0, 0, 0]);
    assert_eq!(&bytes[80..84], &[0x41, 0, 0, 0]);
    assert_eq!(&bytes[88..92], &[32, 0, 0, 0]);
    assert_eq!(&bytes[92..96], &[0xFF, 0, 0, 0]);
    assert_eq!(&bytes[104..108], &[0, 0, 0, 0xFF]);
    let (back, n) = Header::read(&bytes, &ParseOptions::default()).unwrap();
    assert_eq!(n, 128);
    assert_eq!(back, h);
}

#[test]
fn header_round_trip_dx10() {
    let h = Header::new_image(17, 5, DxgiFormat(71)).with_mipmap_count(3).with_array_size(4);
    let bytes = bytes_of(&h);
    assert_eq!(bytes.len(), 148);
    assert_eq!(h.len(), 148);
    assert_eq!(&bytes[84..88], b"DX10");
    assert_eq!(&bytes[128..132], &[71, 0, 0, 0]);
    assert_eq!(&bytes[132..136], &[3, 0, 0, 0]);
    assert_eq!(&bytes[140..144], &[4, 0, 0, 0]);
    let (back, n) = Header::read(&bytes, &ParseOptions::default()).unwrap();
    assert_eq!(n, 148);
    assert_eq!(back, h);
    assert_eq!(back.dx10.unwrap().resource_dimension, ResourceDimension::Texture2D);
}

#[test]
fn header_write_gives_the_bytes_that_were_read() {
    // Every word gets a value of its own, reserved words too.
    let mut bytes = vec![0u8; 160];
    bytes[0..4].copy_from_slice(b"DDS ");
    put(&mut bytes, 4, 124);
    for i in 1..31 {
        put(&mut bytes, 4 + 4 * i, 0x0101_0101u32.wrapping_mul(i as u32) ^ 0x8000_0001);
    }
    put(&mut bytes, 76, 32);
    put(&mut bytes, 80, 0x4);
    bytes[84..88].copy_from_slice(b"DX10");
    put(&mut bytes, 128, 98);
    put(&mut bytes, 132, 4);
    put(&mut bytes, 136, 0xDEAD_BEEF);
    put(&mut bytes, 140, 1);
    put(&mut bytes, 144, 0xFFFF_FF03);
    let (h, n) = Header::read(&bytes, &ParseOptions::default()).unwrap();
    assert_eq!(n, 148);
    assert_eq!(h.reserved1[0], 0x0101_0101u32.wrapping_mul(7) ^ 0x8000_0001);
    assert_eq!(h.dx10.unwrap().misc_flag, 0xDEAD_BEEF);
    assert_eq!(bytes_of(&h), &bytes[..148]);
}

#[test]
fn header_bad_magic() {
    let h = rgba8_header(4, 4);
    let mut bytes = bytes_of(&h);
    bytes[3] = b'!';
    assert_eq!(
        Header::read(&bytes, &ParseOptions::default()),
        Err(HeaderError::InvalidMagicBytes([0x44, 0x44, 0x53, b'!']))
    );
    let skip = ParseOptions { file_magic: MagicBytes::Skip, ..ParseOptions::default() };
    let (back, n) = Header::read(&bytes[4..], &skip).unwrap();
    assert_eq!(n, 124);
    assert_eq!(back, h);
}

#[test]
fn header_truncated_input() {
    let options = ParseOptions::default();
    let h = Header::new_image(4, 4, DxgiFormat(28));
    let bytes = bytes_of(&h);
    assert_eq!(Header::read(&[], &options), Err(HeaderError::UnexpectedEof));
    assert_eq!(Header::read(&bytes[..3], &options), Err(HeaderError::UnexpectedEof));
    assert_eq!(Header::read(&bytes[..127], &options), Err(HeaderError::UnexpectedEof));
    // the header announces an extension that is not all there
    assert_eq!(Header::read(&bytes[..128], &options), Err(HeaderError::UnexpectedEof));
    assert_eq!(Header::read(&bytes[..147], &options), Err(HeaderError::UnexpectedEof));
    assert!(Header::read(&bytes[..148], &options).is_ok());
    // the magic bytes are checked before the rest is missed
    assert_eq!(
        Header::read(b"DDS!", &options),
        Err(HeaderError::InvalidMagicBytes(*b"DDS!"))
    );
}

#[test]
fn header_needed_len() {
    let options = ParseOptions::default();
    let skip = ParseOptions { file_magic: MagicBytes::Skip, ..options };
    let dx10 = bytes_of(&Header::new_image(4, 4, DxgiFormat(28)));
    let plain = bytes_of(&rgba8_header(4, 4));
    assert_eq!(Header::needed_len(&[], &options), 128);
    assert_eq!(Header::needed_len(&[], &skip), 124);
    assert_eq!(Header::needed_len(&dx10[..127], &options), 128);
    assert_eq!(Header::needed_len(&dx10[..128], &options), 148);
    assert_eq!(Header::needed_len(&plain[..128], &options), 128);
    assert_eq!(Header::needed_len(&dx10[4..128], &skip), 144);
    assert_eq!(Header::needed_len(&plain[4..], &skip), 124);
}

#[test]
fn header_invalid_sizes() {
    let options = ParseOptions::default();
    let mut bytes = bytes_of(&rgba8_header(4, 4));
    put(&mut bytes, 4, 125);
    assert_eq!(Header::read(&bytes, &options), Err(HeaderError::InvalidHeaderSize(125)));
    put(&mut bytes, 4, 124);
    put(&mut bytes, 76, 24);
    assert_eq!(Header::read(&bytes, &options), Err(HeaderError::InvalidPixelFormatSize(24)));
    let permissive = ParseOptions { permissive_pixel_format_size: true, ..options };
    let (h, _) = Header::read(&bytes, &permissive).unwrap();
    assert_eq!(h.pixel_format.size, 24);
    assert_eq!(bytes_of(&h), bytes);
    // the header size is checked in every mode
    put(&mut bytes, 4, 0);
    assert_eq!(Header::read(&bytes, &permissive), Err(HeaderError::InvalidHeaderSize(0)));
}

#[test]
fn header_invalid_rgb_bit_count() {
    let options = ParseOptions::default();
    let mut bytes = bytes_of(&rgba8_header(4, 4));
    put(&mut bytes, 88, 12);
    assert_eq!(Header::read(&bytes, &options), Err(HeaderError::InvalidRgbBitCount(12)));
    for ok in [8u32, 16, 24, 32] {
        put(&mut bytes, 88, ok);
        assert!(Header::read(&bytes, &options).is_ok());
    }
    // a pixel format that is named by its FourCC tag has no bit count
    put(&mut bytes, 80, 0x4);
    put(&mut bytes, 88, 0);
    bytes[84..88].copy_from_slice(b"DXT1");
    assert!(Header::read(&bytes, &options).is_ok());
}

#[test]
fn header_invalid_extension() {
    let options = ParseOptions::default();
    let good = bytes_of(&Header::new_image(4, 4, DxgiFormat(28)));

    let mut bytes = good.clone();
    put(&mut bytes, 128, 116);
    assert_eq!(Header::read(&bytes, &options), Err(HeaderError::InvalidDxgiFormat(116)));
    put(&mut bytes, 128, 133);
    assert_eq!(Header::read(&bytes, &options), Err(HeaderError::InvalidDxgiFormat(133)));
    for known in [0u32, 115, 130, 132, 189, 191] {
        put(&mut bytes, 128, known);
        assert!(Header::read(&bytes, &options).is_ok());
    }

    let mut bytes = good.clone();
    put(&mut bytes, 132, 0);
    assert_eq!(Header::read(&bytes, &options), Err(HeaderError::InvalidResourceDimension(0)));
    put(&mut bytes, 132, 5);
    assert_eq!(Header::read(&bytes, &options), Err(HeaderError::InvalidResourceDimension(5)));

    let mut bytes = good.clone();
    put(&mut bytes, 144, 5);
    assert_eq!(Header::read(&bytes, &options), Err(HeaderError::InvalidAlphaMode(5)));
    put(&mut bytes, 144, 0xF8 | 4);
    assert!(Header::read(&bytes, &options).is_ok());

    let mut bytes = good.clone();
    put(&mut bytes, 132, 4);
    put(&mut bytes, 140, 2);
    assert_eq!(
        Header::read(&bytes, &options),
        Err(HeaderError::InvalidArraySizeForTexture3D(2))
    );
    put(&mut bytes, 140, 0);
    assert_eq!(
        Header::read(&bytes, &options),
        Err(HeaderError::InvalidArraySizeForTexture3D(0))
    );
    put(&mut bytes, 140, 1);
    let (h, _) = Header::read(&bytes, &options).unwrap();
    assert_eq!(
        h.dx10,
        Some(Dx10Header {
            dxgi_format: DxgiFormat(28),
            resource_dimension: ResourceDimension::Texture3D,
            misc_flag: 0,
            array_size: 1,
            misc_flags2: 0,
        })
    );

    // the first failed check decides
    let mut bytes = good.clone();
    put(&mut bytes, 128, 200);
    put(&mut bytes, 132, 9);
    put(&mut bytes, 144, 7);
    assert_eq!(Header::read(&bytes, &options), Err(HeaderError::InvalidDxgiFormat(200)));
}

#[test]
fn header_builders() {
    let cube = Header::new_cube_map(8, 8, DxgiFormat(28));
    assert_eq!(cube.caps2, 0xFE00);
    assert_eq!(cube.dx10.unwrap().misc_flag, 4);
    assert_eq!(cube.array_size(), 1);
    let volume = Header::new_volume(8, 4, 2, DxgiFormat(28));
    assert_eq!(volume.flags, 0x80_1007);
    assert_eq!(volume.depth, 2);
    assert!(volume.is_volume());
    assert!(!cube.is_volume());
    let mips = volume.with_mipmap_count(4);
    assert_eq!(mips.flags, 0x82_1007);
    assert_eq!(mips.mipmap_count, 4);
    assert_eq!(rgba8_header(1, 1).with_array_size(7), rgba8_header(1, 1));
    assert_eq!(rgba8_header(1, 1).array_size(), 1);
    assert_eq!(cube.with_array_size(7).array_size(), 7);
    assert_eq!(ResourceDimension::from_code(3), Some(ResourceDimension::Texture2D));
    assert_eq!(ResourceDimension::from_code(0), None);
    assert_eq!(ResourceDimension::Buffer.to_code(), 1);
}
