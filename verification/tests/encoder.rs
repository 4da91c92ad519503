use dds::{
    DxgiFormat, EncodeError, EncodeOptions, Encoder, Dithering, Format, FourCC, Header,
    LayoutError, PixelFormat, ResizeFilter, Size, SizeMultiple, WriteOptions,
};

fn rgba8_mask_header(width: u32, height: u32) -> Header {
    let mut h = Header::new_image(width, height, DxgiFormat(0));
    h.dx10 = None;
    h.pixel_format = PixelFormat {
        size: 32,
        flags: 0x41,
        four_cc: FourCC(0),
        rgb_bit_count: 32,
        r_bit_mask: 0xFF,
        g_bit_mask: 0xFF00,
        b_bit_mask: 0xFF_0000,
        a_bit_mask: 0xFF00_0000,
    };
    h
}

fn square(n: u32) -> Size {
    Size { width: n, height: n }
}

const MIPMAPS: WriteOptions = WriteOptions {
    generate_mipmaps: true,
    resize_straight_alpha: true,
    resize_filter: ResizeFilter::Box,
};

#[test]
fn encoder_mip_chain_64() {
    let h = rgba8_mask_header(64, 64).with_mipmap_count(7);
    let mut file = Vec::new();
    h.write(&mut file);
    assert_eq!(file.len(), 128);
    let mut encoder = Encoder::new((), Format::R8G8B8A8_UNORM, &h).unwrap();
    let mipmaps = encoder.write_surface_with(square(64), &MIPMAPS).unwrap();
    assert_eq!(mipmaps, [square(32), square(16), square(8), square(4), square(2), square(1)]);
    assert_eq!(encoder.surface_info(), None);
    let data = 64 * 64 * 4 + 32 * 32 * 4 + 16 * 16 * 4 + 8 * 8 * 4 + 4 * 4 * 4 + 2 * 2 * 4 + 4;
    assert_eq!(encoder.position(), data);
    assert_eq!(file.len() as u64 + encoder.position(), data + 128);
    assert_eq!(encoder.finish(), Ok(()));
}

#[test]
fn encoder_without_mipmap_generation() {
    let h = rgba8_mask_header(64, 64).with_mipmap_count(7);
    let mut encoder = Encoder::new((), Format::R8G8B8A8_UNORM, &h).unwrap();
    assert_eq!(encoder.format(), Format::R8G8B8A8_UNORM);
    assert_eq!(encoder.main_size(), square(64));
    assert_eq!(encoder.native_color(), Format::R8G8B8A8_UNORM.color());
    assert_eq!(encoder.layout().surface_count(), 7);
    assert_eq!(encoder.options, EncodeOptions::default());
    assert_eq!(encoder.options.dithering, Dithering { color: false, alpha: false });
    assert_eq!(WriteOptions::default().generate_mipmaps, false);
    assert_eq!(WriteOptions::default().resize_straight_alpha, true);
    assert_eq!(WriteOptions::default().resize_filter, ResizeFilter::Box);
    assert_eq!(ResizeFilter::default(), ResizeFilter::Box);
    assert_eq!(encoder.write_surface_with(square(64), &WriteOptions::default()), Ok(vec![]));
    assert_eq!(encoder.position(), 16384);
    let mut n = 32;
    while n >= 1 {
        assert_eq!(encoder.surface_info().unwrap().size, square(n));
        assert_eq!(encoder.write_surface(square(n)), Ok(()));
        n /= 2;
    }
    assert_eq!(encoder.position(), 21844);
    assert_eq!(encoder.write_surface(square(1)), Err(EncodeError::TooManySurfaces));
    assert_eq!(encoder.write_surface_with(square(1), &MIPMAPS), Err(EncodeError::TooManySurfaces));
    assert_eq!(encoder.finish(), Ok(()));
}

#[test]
fn encoder_mipmaps_of_each_slot() {
    let h = Header::new_cube_map(5, 3, DxgiFormat(71)).with_mipmap_count(3);
    let mut encoder = Encoder::new("the writer", Format::BC1_UNORM, &h).unwrap();
    let main = Size { width: 5, height: 3 };
    for face in 0..6u64 {
        assert_eq!(encoder.position(), face * 32);
        let mipmaps = encoder.write_surface_with(main, &MIPMAPS).unwrap();
        assert_eq!(mipmaps, [Size { width: 2, height: 1 }, Size { width: 1, height: 1 }]);
    }
    assert_eq!(encoder.position(), encoder.layout().data_len());
    assert_eq!(encoder.into_writer(), "the writer");
}

#[test]
fn encoder_mipmaps_from_a_mipmap() {
    let h = Header::new_image(8, 8, DxgiFormat(28)).with_mipmap_count(4).with_array_size(2);
    let mut encoder = Encoder::new((), Format::R8G8B8A8_UNORM, &h).unwrap();
    assert_eq!(encoder.write_surface(square(8)), Ok(()));
    assert_eq!(encoder.write_surface_with(square(4), &MIPMAPS), Ok(vec![square(2), square(1)]));
    assert_eq!(encoder.surface_info().unwrap().slot, 1);
    // without mipmaps to make, one surface is taken
    let flat = Header::new_image(8, 8, DxgiFormat(28)).with_array_size(2);
    let mut encoder = Encoder::new((), Format::R8G8B8A8_UNORM, &flat).unwrap();
    assert_eq!(encoder.write_surface_with(square(8), &MIPMAPS), Ok(vec![]));
    assert_eq!(encoder.position(), 256);
}

#[test]
fn encoder_volume_ignores_mipmap_generation() {
    let h = Header::new_volume(4, 4, 2, DxgiFormat(28)).with_mipmap_count(3);
    let mut encoder = Encoder::new((), Format::R8G8B8A8_UNORM, &h).unwrap();
    assert_eq!(encoder.write_surface_with(square(4), &MIPMAPS), Ok(vec![]));
    assert_eq!(encoder.write_surface_with(square(4), &MIPMAPS), Ok(vec![]));
    assert_eq!(encoder.surface_info().unwrap().level, 1);
    assert_eq!(encoder.write_surface_with(square(2), &MIPMAPS), Ok(vec![]));
    assert_eq!(encoder.position(), 64 + 64 + 16);
    assert_eq!(encoder.finish(), Err(EncodeError::MissingSurfaces));
}

#[test]
fn encoder_errors() {
    let h = Header::new_image(8, 8, DxgiFormat(98));
    assert_eq!(
        Encoder::new((), Format::BC7_UNORM, &h).err(),
        Some(EncodeError::UnsupportedFormat(Format::BC7_UNORM))
    );
    assert_eq!(
        Encoder::new((), Format::BC6H_UF16, &h).err(),
        Some(EncodeError::UnsupportedFormat(Format::BC6H_UF16))
    );
    let flat = Header::new_image(8, 0, DxgiFormat(28));
    assert_eq!(
        Encoder::new((), Format::R8G8B8A8_UNORM, &flat).err(),
        Some(EncodeError::Layout(LayoutError::ZeroDimension))
    );
    // the format is checked before the header
    assert_eq!(
        Encoder::new((), Format::BC7_UNORM, &flat).err(),
        Some(EncodeError::UnsupportedFormat(Format::BC7_UNORM))
    );
    let mut encoder = Encoder::new((), Format::BC1_UNORM, &h).unwrap();
    assert_eq!(encoder.finish().err(), Some(EncodeError::MissingSurfaces));
    let mut encoder2 = Encoder::new((), Format::BC1_UNORM, &h).unwrap();
    assert_eq!(encoder2.write_surface(square(4)), Err(EncodeError::UnexpectedSurfaceSize));
    assert_eq!(
        encoder2.write_surface_with(Size { width: 8, height: 7 }, &MIPMAPS),
        Err(EncodeError::UnexpectedSurfaceSize)
    );
    assert_eq!(encoder2.position(), 0);
    encoder2.options = EncodeOptions { dithering: Dithering { color: true, alpha: false } };
    assert_eq!(encoder2.options.dithering.color, true);
    assert_eq!(encoder2.write_surface(square(8)), Ok(()));
    assert_eq!(encoder2.position(), 32);
    encoder = encoder2;
    assert_eq!(encoder.finish(), Ok(()));
}

#[test]
fn encode_size_checks() {
    assert_eq!(Format::BC1_UNORM.check_encode_size(Size { width: 5, height: 3 }), Ok(()));
    assert_eq!(Format::R8_UNORM.check_encode_size(Size { width: 1, height: 1 }), Ok(()));
    assert_eq!(
        Format::BC1_UNORM.check_encode_size(Size { width: 0, height: 3 }),
        Err(EncodeError::EmptySurface)
    );
    assert_eq!(
        Format::BC1_UNORM.check_encode_size(Size { width: 3, height: 0 }),
        Err(EncodeError::EmptySurface)
    );
    assert_eq!(
        Format::BC7_UNORM.check_encode_size(Size { width: 0, height: 0 }),
        Err(EncodeError::UnsupportedFormat(Format::BC7_UNORM))
    );
    let even = SizeMultiple { width_multiple: 2, height_multiple: 1 };
    assert!(even.is_multiple(Size { width: 6, height: 5 }));
    assert!(!even.is_multiple(Size { width: 5, height: 6 }));
    assert_eq!(dds::encode::check_size(Size { width: 6, height: 5 }, even), Ok(()));
    assert_eq!(
        dds::encode::check_size(Size { width: 5, height: 6 }, even),
        Err(EncodeError::InvalidSize(even))
    );
    assert_eq!(
        dds::encode::check_size(Size { width: 0, height: 6 }, even),
        Err(EncodeError::EmptySurface)
    );
    let none = SizeMultiple { width_multiple: 0, height_multiple: 0 };
    assert!(none.is_multiple(Size { width: 5, height: 6 }));
    let four = SizeMultiple { width_multiple: 4, height_multiple: 4 };
    assert_eq!(
        dds::encode::check_size(Size { width: 8, height: 6 }, four),
        Err(EncodeError::InvalidSize(four))
    );
}
