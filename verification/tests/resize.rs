use dds::{
    decode_surface, encode_surface, resize, Decoder, Dithering, DxgiFormat, EncodeOptions,
    Encoder, Format, FourCC, Header, PixelFormat, PixelGrid, ResizeFilter, Rgba8, Size,
    WriteOptions,
};

const PLAIN: EncodeOptions = EncodeOptions { dithering: Dithering { color: false, alpha: false } };

fn rgba(r: u8, g: u8, b: u8, a: u8) -> Rgba8 {
    Rgba8 { r, g, b, a }
}

fn pattern(width: usize, height: usize) -> Vec<Rgba8> {
    let mut image = Vec::new();
    for y in 0..height {
        for x in 0..width {
            let a = if (x + y) % 3 == 0 { 0 } else { ((31 * x + 17 * y) & 0xFF) as u8 };
            image.push(rgba((x * 255 / width) as u8, (y * 255 / height) as u8, ((x ^ y) & 0xFF) as u8, a));
        }
    }
    image
}

#[test]
fn resize_to_the_same_size_is_the_image() {
    for (w, h) in [(1usize, 1usize), (5, 3), (16, 16), (7, 12)] {
        let image = pattern(w, h);
        let grid = PixelGrid::new(&image, w, h).unwrap();
        for filter in [ResizeFilter::Box, ResizeFilter::Nearest] {
            for straight_alpha in [false, true] {
                assert_eq!(resize(&grid, w, h, straight_alpha, filter).unwrap(), image);
            }
        }
    }
}

#[test]
fn resize_box_halves() {
    // 4x2 of gray levels
    let levels = [10u8, 20, 30, 40, 50, 60, 70, 80];
    let image: Vec<Rgba8> = levels.iter().map(|v| rgba(*v, *v, *v, 255)).collect();
    let grid = PixelGrid::new(&image, 4, 2).unwrap();
    let half = resize(&grid, 2, 1, false, ResizeFilter::Box).unwrap();
    // (10 + 20 + 50 + 60) / 4 and (30 + 40 + 70 + 80) / 4
    assert_eq!(half, [rgba(35, 35, 35, 255), rgba(55, 55, 55, 255)]);
    let one = resize(&grid, 1, 1, true, ResizeFilter::Box).unwrap();
    assert_eq!(one, [rgba(45, 45, 45, 255)]);
    // halves are rounded to the nearest: (1 + 2) / 2
    let two = [rgba(1, 1, 1, 255), rgba(2, 4, 6, 255)];
    let grid = PixelGrid::new(&two, 2, 1).unwrap();
    assert_eq!(resize(&grid, 1, 1, false, ResizeFilter::Box).unwrap(), [rgba(2, 3, 4, 255)]);
}

#[test]
fn resize_box_shares_of_pixels() {
    // 3 pixels to 2: each pixel of the result covers one pixel and half of the middle one
    let image = [rgba(0, 0, 0, 255), rgba(90, 90, 90, 255), rgba(255, 255, 255, 255)];
    let grid = PixelGrid::new(&image, 3, 1).unwrap();
    let out = resize(&grid, 2, 1, false, ResizeFilter::Box).unwrap();
    assert_eq!(out, [rgba(30, 30, 30, 255), rgba(200, 200, 200, 255)]);
    // 2 pixels to 3: the middle pixel of the result covers half of each
    let image = [rgba(0, 0, 0, 255), rgba(100, 100, 100, 255)];
    let grid = PixelGrid::new(&image, 2, 1).unwrap();
    let out = resize(&grid, 3, 1, false, ResizeFilter::Box).unwrap();
    assert_eq!(out, [rgba(0, 0, 0, 255), rgba(50, 50, 50, 255), rgba(100, 100, 100, 255)]);
    // 1 pixel to many
    let image = [rgba(1, 2, 3, 4)];
    let grid = PixelGrid::new(&image, 1, 1).unwrap();
    assert_eq!(resize(&grid, 3, 2, true, ResizeFilter::Box).unwrap(), [rgba(1, 2, 3, 4); 6]);
}

#[test]
fn resize_straight_alpha() {
    // opaque red beside transparent blue
    let image = [rgba(255, 0, 0, 255), rgba(0, 0, 255, 0)];
    let grid = PixelGrid::new(&image, 2, 1).unwrap();
    // with straight alpha, what is transparent has no color to give
    assert_eq!(resize(&grid, 1, 1, true, ResizeFilter::Box).unwrap(), [rgba(255, 0, 0, 128)]);
    // without, the channels are resized each for itself
    assert_eq!(resize(&grid, 1, 1, false, ResizeFilter::Box).unwrap(), [rgba(128, 0, 128, 128)]);
    // colors count by their alpha: 3/4 red, 1/4 blue
    let image = [rgba(255, 0, 0, 150), rgba(0, 0, 255, 50)];
    let grid = PixelGrid::new(&image, 2, 1).unwrap();
    assert_eq!(resize(&grid, 1, 1, true, ResizeFilter::Box).unwrap(), [rgba(191, 0, 64, 100)]);
    // where nothing is opaque, the colors are kept
    let image = [rgba(10, 20, 30, 0), rgba(30, 40, 50, 0)];
    let grid = PixelGrid::new(&image, 2, 1).unwrap();
    assert_eq!(resize(&grid, 1, 1, true, ResizeFilter::Box).unwrap(), [rgba(20, 30, 40, 0)]);
}

#[test]
fn resize_nearest() {
    let image: Vec<Rgba8> = (0..8u8).map(|v| rgba(v, 0, 0, 255)).collect();
    let grid = PixelGrid::new(&image, 4, 2).unwrap();
    let out = resize(&grid, 2, 1, true, ResizeFilter::Nearest).unwrap();
    // the pixels under the middles: row 1, columns 1 and 3
    assert_eq!(out, [rgba(5, 0, 0, 255), rgba(7, 0, 0, 255)]);
    let out = resize(&grid, 8, 2, false, ResizeFilter::Nearest).unwrap();
    let reds: Vec<u8> = out.iter().map(|p| p.r).collect();
    assert_eq!(reds, [0, 0, 1, 1, 2, 2, 3, 3, 4, 4, 5, 5, 6, 6, 7, 7]);
}

#[test]
fn resize_refuses() {
    let image = pattern(4, 4);
    let grid = PixelGrid::new(&image, 4, 4).unwrap();
    for filter in [ResizeFilter::Triangle, ResizeFilter::Mitchell, ResizeFilter::Lanczos3] {
        assert_eq!(resize(&grid, 2, 2, true, filter), None);
    }
    assert_eq!(resize(&grid, 0, 2, true, ResizeFilter::Box), None);
    assert_eq!(resize(&grid, 2, 0, true, ResizeFilter::Nearest), None);
    let empty = PixelGrid::new(&image[..0], 0, 4).unwrap();
    assert_eq!(resize(&empty, 2, 2, true, ResizeFilter::Box), None);
    if usize::BITS >= 64 {
        assert_eq!(resize(&grid, 1 << 32, 1, true, ResizeFilter::Box), None);
    }
}

#[test]
fn mip_chain_of_a_64x64_image() {
    // a header without extension: 128 bytes
    let mut header = Header::new_image(64, 64, DxgiFormat(0)).with_mipmap_count(7);
    header.dx10 = None;
    header.pixel_format = PixelFormat {
        size: 32,
        flags: 0x41,
        four_cc: FourCC(0),
        rgb_bit_count: 32,
        r_bit_mask: 0xFF,
        g_bit_mask: 0xFF00,
        b_bit_mask: 0xFF_0000,
        a_bit_mask: 0xFF00_0000,
    };
    let image: Vec<Rgba8> = (0..64 * 64).map(|i| rgba((i % 64) as u8 * 4, (i / 64) as u8 * 4, 77, 255)).collect();
    let grid = PixelGrid::new(&image, 64, 64).unwrap();
    let format = Format::R8G8B8A8_UNORM;

    let mut file = Vec::new();
    header.write(&mut file);
    let mut encoder = Encoder::new((), format, &header).unwrap();
    let options = WriteOptions { generate_mipmaps: true, ..WriteOptions::default() };
    let mipmaps = encoder.write_surface_with(Size { width: 64, height: 64 }, &options).unwrap();
    file.extend(encode_surface(format, &grid, &PLAIN).unwrap());
    for size in &mipmaps {
        // each mipmap is made from the image, not from the mipmap before it
        let (w, h) = (size.width as usize, size.height as usize);
        let pixels = resize(&grid, w, h, options.resize_straight_alpha, options.resize_filter).unwrap();
        file.extend(encode_surface(format, &PixelGrid::new(&pixels, w, h).unwrap(), &PLAIN).unwrap());
    }
    assert_eq!(encoder.surface_info(), None);
    assert!(encoder.finish().is_ok());
    let expected = 64 * 64 * 4 + 32 * 32 * 4 + 16 * 16 * 4 + 8 * 8 * 4 + 4 * 4 * 4 + 2 * 2 * 4 + 4 + 128;
    assert_eq!(file.len(), expected);
    assert_eq!(file.len(), 21972);

    // and back
    let mut decoder = Decoder::new((), &file).unwrap();
    assert_eq!(decoder.format(), format);
    let mut at = decoder.info().header().len();
    let mut n = 64u32;
    let mut last = Vec::new();
    while let Some(next) = decoder.surface_info() {
        assert_eq!(next.size, Size { width: n, height: n });
        let read = decoder.read_surface(next.size).unwrap();
        let bytes = &file[at..at + read.byte_length as usize];
        last = decode_surface(format, bytes, read.size).unwrap();
        if n == 64 {
            assert_eq!(last, image);
        }
        at += read.byte_length as usize;
        n /= 2;
    }
    assert_eq!(at, file.len());
    assert_eq!(decoder.position() as usize + 128, file.len());
    // the last mipmap is the average of the image
    assert_eq!(last, [rgba(126, 126, 77, 255)]);
}
