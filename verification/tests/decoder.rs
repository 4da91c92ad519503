use dds::{
    Channels, ColorFormat, DdsInfo, DecodeError, DecodeOptions, Decoder, DxgiFormat, Format,
    FormatError, Header, HeaderError, LayoutError, MagicBytes, ParseOptions, Precision, Rect,
    RectPlan, Size,
};

fn written(h: &Header) -> Vec<u8> {
    let mut bytes = Vec::new();
    h.write(&mut bytes);
    bytes
}

const RGBA8: ColorFormat = ColorFormat { channels: Channels::Rgba, precision: Precision::U8 };

#[test]
fn info_read() {
    let h = Header::new_image(64, 64, DxgiFormat(71)).with_mipmap_count(7);
    let mut file = written(&h);
    file.extend_from_slice(&[0xAB; 100]);
    let info = DdsInfo::read(&file).unwrap();
    assert_eq!(*info.header(), h);
    assert_eq!(info.format(), Format::BC1_UNORM);
    assert_eq!(info.layout().data_len(), 2048 + 512 + 128 + 32 + 8 + 8 + 8);
    assert_eq!(info.header().len(), 148);
    assert_eq!(DdsInfo::new(h).unwrap(), info);
    let other = DdsInfo::new_with_format(h, Format::R8G8B8A8_UNORM).unwrap();
    assert_eq!(other.format(), Format::R8G8B8A8_UNORM);
    assert_eq!(other.layout().data_len(), 16384 + 4096 + 1024 + 256 + 64 + 16 + 4);
}

#[test]
fn info_errors_of_each_layer() {
    assert_eq!(DdsInfo::read(b"DDS"), Err(DecodeError::Header(HeaderError::UnexpectedEof)));
    let unknown = Header::new_image(4, 4, DxgiFormat(1));
    assert_eq!(
        DdsInfo::read(&written(&unknown)),
        Err(DecodeError::Format(FormatError::UnsupportedDxgiFormat(DxgiFormat(1))))
    );
    let flat = Header::new_image(4, 0, DxgiFormat(28));
    assert_eq!(
        DdsInfo::read(&written(&flat)),
        Err(DecodeError::Layout(LayoutError::ZeroDimension))
    );
    assert_eq!(DdsInfo::new(flat), Err(DecodeError::Layout(LayoutError::ZeroDimension)));
    assert_eq!(
        DdsInfo::new_with_format(flat, Format::BC1_UNORM),
        Err(DecodeError::Layout(LayoutError::ZeroDimension))
    );
    // the format is found before the layout
    let both = Header::new_image(0, 0, DxgiFormat(1));
    assert_eq!(
        DdsInfo::new(both),
        Err(DecodeError::Format(FormatError::UnsupportedDxgiFormat(DxgiFormat(1))))
    );
}

#[test]
fn info_array_size_limit() {
    let h = Header::new_image(1, 1, DxgiFormat(61)).with_array_size(4097);
    let file = written(&h);
    assert_eq!(
        DdsInfo::read(&file),
        Err(DecodeError::Layout(LayoutError::ArraySizeTooBig(4097)))
    );
    let more = ParseOptions { max_array_size: 4097, ..ParseOptions::default() };
    assert_eq!(DdsInfo::read_with_options(&file, &more).unwrap().layout().slots(), 4097);
    let strict = ParseOptions { max_array_size: 0, ..ParseOptions::default() };
    let single = written(&Header::new_image(1, 1, DxgiFormat(61)));
    assert_eq!(
        DdsInfo::read_with_options(&single, &strict),
        Err(DecodeError::Layout(LayoutError::ArraySizeTooBig(1)))
    );
    // the limit is held against the array size before the format is looked at
    let unknown = written(&Header::new_image(1, 1, DxgiFormat(1)).with_array_size(9999));
    assert_eq!(
        DdsInfo::read(&unknown),
        Err(DecodeError::Layout(LayoutError::ArraySizeTooBig(9999)))
    );
    // headers are new_image's; the library itself allows them
    assert!(DdsInfo::new(h).is_ok());
}

#[test]
fn decoder_reads_surfaces_in_order() {
    let h = Header::new_image(8, 4, DxgiFormat(28)).with_mipmap_count(3).with_array_size(2);
    let file = written(&h);
    let mut decoder = Decoder::new("the reader", &file).unwrap();
    assert_eq!(decoder.format(), Format::R8G8B8A8_UNORM);
    assert_eq!(decoder.native_color(), RGBA8);
    assert_eq!(decoder.main_size(), Size { width: 8, height: 4 });
    assert_eq!(decoder.layout().surface_count(), 6);
    assert_eq!(decoder.info().format(), Format::R8G8B8A8_UNORM);
    assert_eq!(decoder.options, DecodeOptions::default());
    assert_eq!(decoder.options.memory_limit, 256 * 1024 * 1024);
    let sizes = [(8u32, 4u32), (4, 2), (2, 1), (8, 4), (4, 2), (2, 1)];
    let mut position = 0;
    for (width, height) in sizes {
        assert_eq!(decoder.position(), position);
        let next = decoder.surface_info().unwrap();
        assert_eq!(next.size, Size { width, height });
        let read = decoder.read_surface(Size { width, height }).unwrap();
        assert_eq!(read, next);
        assert_eq!(read.byte_length, (width * height * 4) as u64);
        position += read.byte_length;
    }
    assert_eq!(decoder.position(), decoder.layout().data_len());
    assert_eq!(decoder.surface_info(), None);
    assert_eq!(decoder.read_surface(Size { width: 8, height: 4 }), Err(DecodeError::NoMoreSurfaces));
    assert_eq!(decoder.skip_surface(), Err(DecodeError::NoMoreSurfaces));
    assert_eq!(decoder.skip_mipmaps(), Ok(0));
    assert_eq!(decoder.into_reader(), "the reader");
}

#[test]
fn decoder_with_options() {
    let h = Header::new_image(8, 4, DxgiFormat(28));
    let file = written(&h);
    let skip = ParseOptions { file_magic: MagicBytes::Skip, ..ParseOptions::default() };
    assert!(matches!(
        Decoder::new_with_options((), &file, &skip),
        Err(DecodeError::Header(HeaderError::InvalidHeaderSize(_)))
    ));
    let decoder = Decoder::new_with_options(7u8, &file[4..], &skip).unwrap();
    assert_eq!(decoder.into_reader(), 7);
    let info = DdsInfo::new(h).unwrap();
    let decoder = Decoder::from_info((), info).unwrap();
    assert_eq!(*decoder.info(), info);
    assert_eq!(decoder.position(), 0);
}

#[test]
fn decoder_unexpected_surface_size() {
    let file = written(&Header::new_image(8, 4, DxgiFormat(28)).with_mipmap_count(2));
    let mut decoder = Decoder::new((), &file).unwrap();
    for size in [(4u32, 8u32), (8, 5), (7, 4), (0, 0)] {
        assert_eq!(
            decoder.read_surface(Size { width: size.0, height: size.1 }),
            Err(DecodeError::UnexpectedSurfaceSize)
        );
        assert_eq!(decoder.position(), 0);
    }
    assert!(decoder.read_surface(Size { width: 8, height: 4 }).is_ok());
    assert_eq!(
        decoder.read_surface(Size { width: 8, height: 4 }),
        Err(DecodeError::UnexpectedSurfaceSize)
    );
    assert!(decoder.read_surface(Size { width: 4, height: 2 }).is_ok());
}

#[test]
fn decoder_memory_limit() {
    // a row of 1000 pixels of 16 bytes
    let file = written(&Header::new_image(1000, 2, DxgiFormat(2)));
    let mut decoder = Decoder::new((), &file).unwrap();
    decoder.options = DecodeOptions { memory_limit: 15_999 };
    let size = Size { width: 1000, height: 2 };
    assert_eq!(decoder.read_surface(size), Err(DecodeError::MemoryLimitExceeded));
    assert_eq!(decoder.position(), 0);
    // a rectangle takes less
    let rect = Rect { x: 0, y: 0, width: 999, height: 2 };
    assert!(decoder.read_surface_rect(1 << 20, 16_000, rect, RGBA8).is_ok());
    assert_eq!(decoder.position(), 32_000);

    let mut decoder = Decoder::new((), &file).unwrap();
    decoder.options.memory_limit = 16_000;
    assert!(decoder.read_surface(size).is_ok());

    let mut decoder = Decoder::new((), &file).unwrap();
    decoder.options = DecodeOptions { memory_limit: 15_983 };
    assert_eq!(
        decoder.read_surface_rect(1 << 20, 16_000, rect, RGBA8),
        Err(DecodeError::MemoryLimitExceeded)
    );
    // the size of the image is checked before the memory limit
    assert_eq!(
        decoder.read_surface(Size { width: 1, height: 1 }),
        Err(DecodeError::UnexpectedSurfaceSize)
    );
}

#[test]
fn decoder_rect_of_bc3() {
    let file = written(&Header::new_image(256, 256, DxgiFormat(77)));
    let mut decoder = Decoder::new((), &file).unwrap();
    let rect = Rect { x: 10, y: 10, width: 64, height: 64 };
    let plan = decoder.read_surface_rect(256 * 64, 256, rect, RGBA8).unwrap();
    assert_eq!(
        plan,
        RectPlan {
            block_x: 2,
            block_y: 2,
            blocks_wide: 17,
            blocks_high: 17,
            first_offset: 2 * 1024 + 2 * 16,
            run_len: 17 * 16,
            stride: 1024,
            surface_len: 65536,
        }
    );
    // the surface is consumed
    assert_eq!(decoder.position(), 65536);
    assert_eq!(decoder.surface_info(), None);
    assert_eq!(
        decoder.read_surface_rect(256 * 64, 256, rect, RGBA8),
        Err(DecodeError::NoMoreSurfaces)
    );
}

#[test]
fn decoder_rect_plans() {
    let file = written(&Header::new_image(10, 7, DxgiFormat(71)).with_array_size(8));
    let mut decoder = Decoder::new((), &file).unwrap();
    let gray = ColorFormat::new(Channels::Grayscale, Precision::U8);
    // the whole surface: 3 by 2 blocks
    let whole = Rect { x: 0, y: 0, width: 10, height: 7 };
    let plan = decoder.read_surface_rect(70, 10, whole, gray).unwrap();
    assert_eq!(
        plan,
        RectPlan {
            block_x: 0,
            block_y: 0,
            blocks_wide: 3,
            blocks_high: 2,
            first_offset: 0,
            run_len: 24,
            stride: 24,
            surface_len: 48,
        }
    );
    // the last pixel
    let last = Rect { x: 9, y: 6, width: 1, height: 1 };
    let plan = decoder.read_surface_rect(1, 1, last, gray).unwrap();
    assert_eq!((plan.block_x, plan.block_y, plan.blocks_wide, plan.blocks_high), (2, 1, 1, 1));
    assert_eq!((plan.first_offset, plan.run_len), (24 + 16, 8));
    // a rectangle within one block
    let inner = Rect { x: 5, y: 1, width: 2, height: 2 };
    let plan = decoder.read_surface_rect(4, 2, inner, gray).unwrap();
    assert_eq!((plan.block_x, plan.block_y, plan.blocks_wide, plan.blocks_high), (1, 0, 1, 1));
    assert_eq!((plan.first_offset, plan.run_len), (8, 8));
    // a rectangle across the edge of blocks
    let across = Rect { x: 3, y: 3, width: 2, height: 2 };
    let plan = decoder.read_surface_rect(4, 2, across, gray).unwrap();
    assert_eq!((plan.block_x, plan.block_y, plan.blocks_wide, plan.blocks_high), (0, 0, 2, 2));
    assert_eq!((plan.first_offset, plan.run_len), (0, 16));
    // rectangles without pixels take no run, wherever they are
    for empty in [
        Rect { x: 0, y: 0, width: 0, height: 0 },
        Rect { x: 10, y: 7, width: 0, height: 0 },
        Rect { x: 4, y: 0, width: 0, height: 7 },
        Rect { x: 0, y: 5, width: 10, height: 0 },
    ] {
        let plan = decoder.read_surface_rect(70, 10, empty, gray).unwrap();
        assert_eq!((plan.blocks_wide, plan.blocks_high), (0, 0));
        assert_eq!((plan.first_offset, plan.run_len), (0, 0));
        assert_eq!((plan.stride, plan.surface_len), (24, 48));
    }
    assert_eq!(decoder.position(), 8 * 48);
}

#[test]
fn decoder_rect_errors() {
    let file = written(&Header::new_image(256, 256, DxgiFormat(77)));
    let mut decoder = Decoder::new((), &file).unwrap();
    let rect = Rect { x: 10, y: 10, width: 64, height: 64 };
    for out in [
        Rect { x: 200, y: 10, width: 64, height: 64 },
        Rect { x: 10, y: 193, width: 64, height: 64 },
        Rect { x: 0, y: 0, width: 257, height: 1 },
        Rect { x: u32::MAX, y: 0, width: 2, height: 1 },
        Rect { x: 257, y: 0, width: 0, height: 0 },
    ] {
        assert_eq!(
            decoder.read_surface_rect(usize::MAX, usize::MAX, out, RGBA8),
            Err(DecodeError::RectOutOfBounds)
        );
    }
    assert_eq!(
        decoder.read_surface_rect(256 * 64, 255, rect, RGBA8),
        Err(DecodeError::RowPitchTooSmall { required_minimum: 256 })
    );
    let wide = ColorFormat::new(Channels::Rgba, Precision::F32);
    assert_eq!(
        decoder.read_surface_rect(1 << 20, 1023, rect, wide),
        Err(DecodeError::RowPitchTooSmall { required_minimum: 1024 })
    );
    assert_eq!(
        decoder.read_surface_rect(256 * 64 - 1, 256, rect, RGBA8),
        Err(DecodeError::RectBufferTooSmall { required_minimum: 16384 })
    );
    assert_eq!(
        decoder.read_surface_rect(0, 300, rect, RGBA8),
        Err(DecodeError::RectBufferTooSmall { required_minimum: 19200 })
    );
    assert_eq!(
        decoder.read_surface_rect(usize::MAX - 1, usize::MAX, rect, RGBA8),
        Err(DecodeError::RectBufferTooSmall { required_minimum: usize::MAX })
    );
    // the rectangle is checked before the row pitch, the row pitch before the buffer
    let out = Rect { x: 250, y: 0, width: 64, height: 64 };
    assert_eq!(decoder.read_surface_rect(0, 0, out, RGBA8), Err(DecodeError::RectOutOfBounds));
    assert_eq!(
        decoder.read_surface_rect(0, 0, rect, RGBA8),
        Err(DecodeError::RowPitchTooSmall { required_minimum: 256 })
    );
    // nothing was consumed
    assert_eq!(decoder.position(), 0);
    assert!(decoder.read_surface_rect(256 * 64, 256, rect, RGBA8).is_ok());
}

#[test]
fn decoder_skips() {
    let h = Header::new_cube_map(16, 16, DxgiFormat(77)).with_mipmap_count(5);
    let file = written(&h);
    let mut decoder = Decoder::new((), &file).unwrap();
    assert_eq!(decoder.skip_mipmaps(), Ok(0));
    assert_eq!(decoder.read_surface(Size { width: 16, height: 16 }).unwrap().slot, 0);
    assert_eq!(decoder.skip_mipmaps(), Ok(112));
    assert_eq!(decoder.position(), 368);
    let next = decoder.surface_info().unwrap();
    assert_eq!((next.slot, next.level), (1, 0));
    assert_eq!(decoder.skip_surface(), Ok(256));
    assert_eq!(decoder.skip_surface(), Ok(64));
    assert_eq!(decoder.skip_mipmaps(), Ok(48));
    assert_eq!(decoder.position(), 2 * 368);
}

#[test]
fn decoder_volume_skip_mipmaps_mid_level() {
    let file = written(&Header::new_volume(16, 16, 16, DxgiFormat(28)).with_mipmap_count(5));
    let mut decoder = Decoder::new((), &file).unwrap();
    for slice in 0..4 {
        let read = decoder.read_surface(Size { width: 16, height: 16 }).unwrap();
        assert_eq!((read.level, read.slot), (0, slice));
    }
    assert_eq!(decoder.skip_mipmaps(), Err(DecodeError::CannotSkipMipmapsInVolume));
    assert_eq!(decoder.position(), 4 * 1024);
    assert_eq!(decoder.surface_info().unwrap().slot, 4);
    for _ in 4..16 {
        decoder.skip_surface().unwrap();
    }
    assert_eq!(decoder.skip_mipmaps(), Ok(2340));
    assert_eq!(decoder.position(), decoder.layout().data_len());
}

#[test]
fn rect_within() {
    let size = Size { width: 4, height: 2 };
    assert!(Rect { x: 0, y: 0, width: 4, height: 2 }.is_within(size));
    assert!(Rect { x: 4, y: 2, width: 0, height: 0 }.is_within(size));
    assert!(!Rect { x: 1, y: 0, width: 4, height: 2 }.is_within(size));
    assert!(!Rect { x: 0, y: 1, width: 4, height: 2 }.is_within(size));
    assert!(!Rect { x: u32::MAX, y: 0, width: u32::MAX, height: 1 }.is_within(size));
}
