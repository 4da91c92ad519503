use dds::decode::bc::{byte_of, key_of};
use dds::encode::bc::{
    dither_alpha, encode_bc1, encode_bc2, encode_bc3, get_4x4_grayscale, get_4x4_select_channel,
    get_alpha, pre_multiply_alpha,
};
use dds::encode::bc1::pack_bc1;
use dds::encode::bc4::pack_bc4;
use dds::{
    compress_bc1_block, compress_bc4_block, decompress_bc1_block, decompress_bc4_block,
    encode_bc_surface, handle_bc4, handle_bc5, Bc1Options, Bc4Options, DataLayout, Dithering,
    DxgiFormat, EncodeError, EncodeOptions, Format, Header, PixelGrid, Rgba8,
};

const PLAIN: EncodeOptions = EncodeOptions { dithering: Dithering { color: false, alpha: false } };
const BC1: Bc1Options = Bc1Options { dither: false, no_default: false };
const BC4: Bc4Options = Bc4Options { dither: false, snorm: false };

fn rgba(r: u8, g: u8, b: u8, a: u8) -> Rgba8 {
    Rgba8 { r, g, b, a }
}

/// Eight half-opaque pixels, four transparent white ones, four opaque dark ones.
fn mixed_block() -> [Rgba8; 16] {
    let mut block = [rgba(200, 100, 50, 128); 16];
    for p in &mut block[8..12] {
        *p = rgba(255, 255, 255, 0);
    }
    for p in &mut block[12..16] {
        *p = rgba(10, 20, 30, 255);
    }
    block
}

#[test]
fn bc1_opaque_red_8x8() {
    let red = rgba(255, 0, 0, 255);
    let image = [red; 64];
    let bytes = encode_bc_surface(Format::BC1_UNORM, &PixelGrid::new(&image, 8, 8).unwrap(), &PLAIN)
        .unwrap();
    assert_eq!(bytes.len(), 32);
    for block in bytes.chunks(8) {
        // c0 = c1 = 0xF800, all indices 0
        assert_eq!(block, [0x00, 0xF8, 0x00, 0xF8, 0, 0, 0, 0]);
    }
    // two blocks side by side
    let bytes = encode_bc_surface(Format::BC1_UNORM, &PixelGrid::new(&image[..32], 8, 4).unwrap(), &PLAIN)
        .unwrap();
    assert_eq!(bytes, [0x00, 0xF8, 0x00, 0xF8, 0, 0, 0, 0, 0x00, 0xF8, 0x00, 0xF8, 0, 0, 0, 0]);
    assert_eq!(compress_bc1_block([red; 16], BC1), [0x00, 0xF8, 0x00, 0xF8, 0, 0, 0, 0]);
    assert_eq!(decompress_bc1_block([0x00, 0xF8, 0x00, 0xF8, 0, 0, 0, 0]), [red; 16]);
}

#[test]
fn bc1_uniform_blocks_come_back_within_a_step() {
    for dither in [false, true] {
        for no_default in [false, true] {
            let options = Bc1Options { dither, no_default };
            for v in 0..=255u8 {
                let p = rgba(v, 255 - v, v / 2 + 100, 255);
                let block = compress_bc1_block([p; 16], options);
                assert_eq!(block[0..2], block[2..4]);
                assert_eq!(block[4..8], [0; 4]);
                for q in decompress_bc1_block(block) {
                    assert_eq!(q.a, 255);
                    assert!((q.r as i32 - p.r as i32).abs() <= 4);
                    assert!((q.g as i32 - p.g as i32).abs() <= 2);
                    assert!((q.b as i32 - p.b as i32).abs() <= 4);
                }
                // what was decoded is encoded as it was
                let again = compress_bc1_block(decompress_bc1_block(block), options);
                assert_eq!(again, block);
            }
        }
    }
}

#[test]
fn bc1_black_and_white() {
    let black = rgba(0, 0, 0, 255);
    let white = rgba(255, 255, 255, 255);
    let mut block = [black; 16];
    for i in 0..16 {
        if i % 4 >= 2 {
            block[i] = white;
        }
    }
    // four colors: c0 = white > c1 = black; black is entry 1, white entry 0
    let bytes = compress_bc1_block(block, BC1);
    assert_eq!(bytes, [0xFF, 0xFF, 0x00, 0x00, 0x05, 0x05, 0x05, 0x05]);
    assert_eq!(decompress_bc1_block(bytes), block);
}

#[test]
fn bc1_transparent_pixels() {
    let red = rgba(255, 0, 0, 255);
    let mut block = [red; 16];
    block[0] = rgba(1, 2, 3, 0);
    // three colors, and the entry that is no color for the first pixel
    let bytes = compress_bc1_block(block, BC1);
    assert_eq!(bytes, [0x00, 0xF8, 0x00, 0xF8, 0x03, 0, 0, 0]);
    let decoded = decompress_bc1_block(bytes);
    assert_eq!(decoded[0], rgba(0, 0, 0, 0));
    assert_eq!(decoded[1..], [red; 15]);
    // as the colors of a BC2 or BC3 block, every pixel has a color
    let bytes = compress_bc1_block(block, Bc1Options { dither: false, no_default: true });
    assert_eq!(bytes, [0x00, 0xF8, 0x00, 0x00, 0x01, 0, 0, 0]);
    assert!(decompress_bc1_block(bytes).iter().all(|p| p.a == 255));
    // alpha of 127 is less than half, 128 is not
    assert_eq!(compress_bc1_block([rgba(9, 9, 9, 127); 16], BC1), [0, 0, 0, 0, 255, 255, 255, 255]);
    assert_eq!(compress_bc1_block([rgba(9, 9, 9, 128); 16], BC1)[4..], [0; 4]);
    assert_eq!(
        decompress_bc1_block([0, 0, 0, 0, 255, 255, 255, 255]),
        [rgba(0, 0, 0, 0); 16]
    );
}

#[test]
fn bc1_channels_that_fall_where_others_rise() {
    // red rises, green falls, blue rises half as fast
    let mut block = [rgba(0, 0, 0, 255); 16];
    for i in 0..16u8 {
        block[i as usize] = rgba(16 * i, 255 - 16 * i, 8 * i, 255);
    }
    let bytes = compress_bc1_block(block, BC1);
    assert_eq!(bytes, [143, 232, 224, 7, 213, 255, 170, 2]);
    let decoded = decompress_bc1_block(bytes);
    for (p, q) in block.iter().zip(decoded) {
        assert!((q.r as i32 - p.r as i32).abs() <= 48);
        assert!((q.g as i32 - p.g as i32).abs() <= 48);
        assert!((q.b as i32 - p.b as i32).abs() <= 24);
    }
    assert_eq!(decoded[0], rgba(0, 255, 0, 255));
    assert_eq!(decoded[15], rgba(239, 16, 123, 255));
    // dithering is the same every time, and differs from rounding
    let options = Bc1Options { dither: true, no_default: false };
    let dithered = compress_bc1_block(block, options);
    assert_eq!(dithered, [143, 232, 224, 7, 213, 239, 171, 0]);
    assert_eq!(compress_bc1_block(block, options), dithered);
    // with holes in it
    for i in [0, 5, 10, 15] {
        block[i].a = 0;
    }
    let bytes = compress_bc1_block(block, BC1);
    assert_eq!(bytes, [97, 23, 14, 217, 3, 172, 122, 213]);
    let decoded = decompress_bc1_block(bytes);
    for i in 0..16 {
        assert_eq!(decoded[i].a == 0, i % 5 == 0);
    }
}

#[test]
fn bc1_decoder_palettes() {
    // four colors: 0xFFFF > 0x0000; the indices 0, 1, 2, 3 in each row
    let decoded = decompress_bc1_block([0xFF, 0xFF, 0, 0, 0xE4, 0xE4, 0xE4, 0xE4]);
    assert_eq!(decoded[0], rgba(255, 255, 255, 255));
    assert_eq!(decoded[1], rgba(0, 0, 0, 255));
    assert_eq!(decoded[2], rgba(170, 170, 170, 255));
    assert_eq!(decoded[3], rgba(85, 85, 85, 255));
    assert_eq!(decoded[4..8], decoded[0..4]);
    // three colors: 0x0000 <= 0xFFFF
    let decoded = decompress_bc1_block([0, 0, 0xFF, 0xFF, 0xE4, 0x1B, 0, 0xFF]);
    assert_eq!(decoded[0], rgba(0, 0, 0, 255));
    assert_eq!(decoded[1], rgba(255, 255, 255, 255));
    assert_eq!(decoded[2], rgba(128, 128, 128, 255));
    assert_eq!(decoded[3], rgba(0, 0, 0, 0));
    assert_eq!(decoded[4], decoded[3]);
    assert_eq!(decoded[7], decoded[0]);
    assert_eq!(decoded[8..12], [decoded[0]; 4]);
    assert_eq!(decoded[12..16], [decoded[3]; 4]);
    // 5, 6 and 5 bits: red 1 of 31, green 1 of 63, blue 30 of 31
    let c: u16 = (1 << 11) | (1 << 5) | 30;
    let decoded = decompress_bc1_block([c as u8, (c >> 8) as u8, c as u8, (c >> 8) as u8, 0, 0, 0, 0]);
    assert_eq!(decoded[0], rgba(8, 4, 247, 255));
}

#[test]
fn bc1_pack() {
    let mut indices = [0u8; 16];
    for i in 0..16 {
        indices[i] = (i % 4) as u8;
    }
    assert_eq!(pack_bc1(0x1234, 0xABCD, &indices), [0x34, 0x12, 0xCD, 0xAB, 0xE4, 0xE4, 0xE4, 0xE4]);
    indices.reverse();
    assert_eq!(pack_bc1(0, 0xFFFF, &indices), [0, 0, 0xFF, 0xFF, 0x1B, 0x1B, 0x1B, 0x1B]);
}

#[test]
fn bc4_uniform_blocks_come_back() {
    for dither in [false, true] {
        for v in 0..=255u8 {
            let options = Bc4Options { dither, snorm: false };
            let block = compress_bc4_block([v; 16], options);
            assert_eq!(block, [v, v, 0, 0, 0, 0, 0, 0]);
            assert_eq!(decompress_bc4_block(block, false), [v; 16]);
            let options = Bc4Options { dither, snorm: true };
            let block = compress_bc4_block([v; 16], options);
            // the signed byte -128 counts as -127
            let back = if v == 0x80 { 0x81 } else { v };
            assert_eq!(block, [back, back, 0, 0, 0, 0, 0, 0]);
            assert_eq!(decompress_bc4_block(block, true), [back; 16]);
        }
    }
}

#[test]
fn bc4_two_values() {
    let mut block = [0u8; 16];
    for i in 0..16 {
        if i % 2 == 1 {
            block[i] = 255;
        }
    }
    // e0 = 255 > e1 = 0; 0 is entry 1, 255 is entry 0
    let bytes = compress_bc4_block(block, BC4);
    assert_eq!(bytes, [255, 0, 0x41, 0x10, 0x04, 0x41, 0x10, 0x04]);
    assert_eq!(decompress_bc4_block(bytes, false), block);
}

#[test]
fn bc4_ramp() {
    let mut block = [0u8; 16];
    for i in 0..16 {
        block[i] = 17 * i as u8;
    }
    let bytes = compress_bc4_block(block, BC4);
    assert_eq!(bytes, [255, 0, 201, 111, 183, 228, 38, 1]);
    let decoded = decompress_bc4_block(bytes, false);
    assert_eq!(decoded, [0, 0, 36, 36, 73, 73, 109, 109, 146, 146, 182, 182, 219, 219, 255, 255]);
    // every pixel got the entry that is nearest to it
    let palette = [255, 0, 219, 182, 146, 109, 73, 36];
    for (v, d) in block.iter().zip(decoded) {
        let best = palette.iter().map(|p| (*p as i32 - *v as i32).abs()).min().unwrap();
        assert_eq!((d as i32 - *v as i32).abs(), best);
    }
    let dithered = compress_bc4_block(block, Bc4Options { dither: true, snorm: false });
    assert_eq!(dithered, [255, 0, 201, 109, 183, 37, 39, 1]);
    // dithered, a pixel gets one of the two entries around it
    for (v, d) in block.iter().zip(decompress_bc4_block(dithered, false)) {
        assert!((d as i32 - *v as i32).abs() < 37);
    }
}

#[test]
fn bc4_signed() {
    // -127 and 127 among zeros
    let mut block = [0u8; 16];
    block[0] = 0x81;
    block[1] = 0x7F;
    let bytes = compress_bc4_block(block, Bc4Options { dither: false, snorm: true });
    assert_eq!(bytes, [127, 129, 1, 73, 146, 36, 73, 146]);
    let decoded = decompress_bc4_block(bytes, true);
    assert_eq!(decoded[0], 0x81);
    assert_eq!(decoded[1], 0x7F);
    // 0 lies between two entries: -18 and 18
    assert!(decoded[2..].iter().all(|d| *d == 18));
    // read as unsigned, the same bytes order the other way
    let unsigned = compress_bc4_block(block, BC4);
    assert_eq!(unsigned[0..2], [0x81, 0]);
    for byte in 0..=255u8 {
        let key = key_of(byte, true);
        assert!(key >= 1);
        assert_eq!(byte_of(key, true), if byte == 0x80 { 0x81 } else { byte });
        assert_eq!(key_of(byte, false), byte);
        assert_eq!(byte_of(byte, false), byte);
        // the order of the places is the order of the signed bytes
        if byte != 0x80 {
            assert_eq!(key as i32 - 128, (byte as i8) as i32);
        }
    }
}

#[test]
fn bc4_decoder_palettes() {
    // the indices 0 to 7, twice
    let indices = [0x88, 0xC6, 0xFA];
    let eight = [255, 0, indices[0], indices[1], indices[2], indices[0], indices[1], indices[2]];
    assert_eq!(
        decompress_bc4_block(eight, false),
        [255, 0, 219, 182, 146, 109, 73, 36, 255, 0, 219, 182, 146, 109, 73, 36]
    );
    let six = [0, 255, indices[0], indices[1], indices[2], indices[0], indices[1], indices[2]];
    assert_eq!(
        decompress_bc4_block(six, false),
        [0, 255, 51, 102, 153, 204, 0, 255, 0, 255, 51, 102, 153, 204, 0, 255]
    );
    // signed: the entries 6 and 7 are -127 and 127
    let six = [0x81, 0x7F, indices[0], indices[1], indices[2], 0, 0, 0];
    let decoded = decompress_bc4_block(six, true);
    assert_eq!(decoded[0], 0x81);
    assert_eq!(decoded[1], 0x7F);
    assert_eq!(decoded[6], 0x81);
    assert_eq!(decoded[7], 0x7F);
    assert_eq!(decoded[8], 0x81);
}

#[test]
fn bc4_pack() {
    let mut indices = [0u8; 16];
    for i in 0..16 {
        indices[i] = (i % 8) as u8;
    }
    assert_eq!(pack_bc4(7, 9, &indices), [7, 9, 0x88, 0xC6, 0xFA, 0x88, 0xC6, 0xFA]);
    assert_eq!(pack_bc4(0, 0, &[7; 16]), [0, 0, 0xFF, 0xFF, 0xFF, 0xFF, 0xFF, 0xFF]);
    indices = [0; 16];
    indices[8] = 5;
    assert_eq!(pack_bc4(0, 0, &indices), [0, 0, 0, 0, 0, 5, 0, 0]);
}

#[test]
fn block_helpers() {
    let block = mixed_block();
    assert_eq!(get_alpha(&block), [128, 128, 128, 128, 128, 128, 128, 128, 0, 0, 0, 0, 255, 255, 255, 255]);
    assert_eq!(get_4x4_select_channel::<0>(&block)[7..13], [200, 255, 255, 255, 255, 10]);
    assert_eq!(get_4x4_select_channel::<1>(&block)[7..13], [100, 255, 255, 255, 255, 20]);
    assert_eq!(get_4x4_select_channel::<2>(&block)[7..13], [50, 255, 255, 255, 255, 30]);
    assert_eq!(get_4x4_select_channel::<3>(&block), get_alpha(&block));
    let gray = get_4x4_grayscale(&block);
    assert_eq!(gray[0], 124);
    assert_eq!(gray[8], 255);
    assert_eq!(gray[12], 18);
    let mut colors = [rgba(255, 0, 0, 9), rgba(0, 255, 0, 9), rgba(0, 0, 255, 9)];
    colors[0].a = 255;
    let mut probe = [colors[0]; 16];
    probe[1] = colors[1];
    probe[2] = colors[2];
    assert_eq!(get_4x4_grayscale(&probe)[0..3], [76, 150, 29]);
    let mut pre = block;
    pre_multiply_alpha(&mut pre);
    assert_eq!(pre[0], rgba(100, 50, 25, 128));
    assert_eq!(pre[8], rgba(0, 0, 0, 0));
    assert_eq!(pre[12], rgba(10, 20, 30, 255));
    let mut ramp = [rgba(1, 2, 3, 0); 16];
    for i in 0..16 {
        ramp[i].a = 16 * i as u8 + 8;
    }
    dither_alpha(&mut ramp);
    let alpha: Vec<u8> = ramp.iter().map(|p| p.a).collect();
    assert_eq!(alpha, [255, 0, 255, 0, 0, 255, 0, 255, 255, 0, 255, 255, 0, 255, 255, 255]);
    assert!(ramp.iter().all(|p| (p.r, p.g, p.b) == (1, 2, 3)));
}

#[test]
fn blocks_of_each_format() {
    let block = mixed_block();
    let bc1_colors = [255, 255, 164, 8, 255, 255, 0, 85];
    assert_eq!(
        encode_bc2(&block, &PLAIN, false),
        [136, 136, 136, 136, 0, 0, 255, 255, 255, 255, 164, 8, 255, 255, 0, 85]
    );
    assert_eq!(encode_bc2(&block, &PLAIN, false)[8..], bc1_colors);
    assert_eq!(
        encode_bc2(&block, &PLAIN, true),
        [136, 136, 136, 136, 0, 0, 255, 255, 132, 97, 0, 0, 0, 0, 85, 255]
    );
    assert_eq!(
        encode_bc3(&block, &PLAIN, false),
        [255, 0, 36, 73, 146, 73, 2, 0, 255, 255, 164, 8, 255, 255, 0, 85]
    );
    assert_eq!(
        encode_bc3(&block, &PLAIN, true),
        [255, 0, 36, 73, 146, 73, 2, 0, 132, 97, 0, 0, 0, 0, 85, 255]
    );
    assert_eq!(handle_bc4(&block, BC4), [255, 18, 109, 219, 182, 0, 144, 36]);
    assert_eq!(
        handle_bc4(&block, Bc4Options { dither: false, snorm: true }),
        [127, 9, 109, 219, 182, 0, 144, 36]
    );
    assert_eq!(
        handle_bc5(&block, BC4),
        [255, 10, 219, 182, 109, 0, 144, 36, 255, 20, 182, 109, 219, 0, 144, 36]
    );
    assert_eq!(
        handle_bc5(&block, Bc4Options { dither: false, snorm: true }),
        [127, 5, 219, 182, 109, 0, 144, 36, 127, 10, 182, 109, 219, 0, 144, 36]
    );
    // the alpha of BC3 comes back as it was: 128, 0 and 255 are entries of the palette
    let bc3 = encode_bc3(&block, &PLAIN, false);
    let mut alpha = [0u8; 8];
    alpha.copy_from_slice(&bc3[..8]);
    let decoded = decompress_bc4_block(alpha, false);
    for (p, a) in block.iter().zip(decoded) {
        assert!((a as i32 - p.a as i32).abs() <= 18);
    }
    assert_eq!(decoded[8], 0);
    assert_eq!(decoded[12], 255);
}

#[test]
fn bc1_alpha_dithering() {
    let mut block = [rgba(0, 0, 0, 0); 16];
    for i in 0..16u8 {
        block[i as usize] = rgba(i, i, i, 16 * i + 8);
    }
    assert_eq!(encode_bc1(&block, &PLAIN), [65, 8, 130, 16, 255, 255, 160, 90]);
    let dithered = EncodeOptions { dithering: Dithering { color: false, alpha: true } };
    let bytes = encode_bc1(&block, &dithered);
    assert_eq!(bytes, [0, 0, 130, 16, 204, 187, 174, 87]);
    let holes: Vec<bool> = decompress_bc1_block(bytes).iter().map(|p| p.a == 0).collect();
    let expected: Vec<bool> =
        [255u8, 0, 255, 0, 0, 255, 0, 255, 255, 0, 255, 255, 0, 255, 255, 255].iter().map(|a| *a == 0).collect();
    assert_eq!(holes, expected);
    // without dithering, the lower half of the ramp is transparent
    let holes: Vec<bool> =
        decompress_bc1_block(encode_bc1(&block, &PLAIN)).iter().map(|p| p.a == 0).collect();
    for i in 0..16 {
        assert_eq!(holes[i], i < 8);
    }
}

#[test]
fn surfaces_of_each_format() {
    let block = mixed_block();
    let grid = PixelGrid::new(&block, 4, 4).unwrap();
    let cases = [
        (Format::BC1_UNORM, encode_bc1(&block, &PLAIN).to_vec()),
        (Format::BC2_UNORM, encode_bc2(&block, &PLAIN, false).to_vec()),
        (Format::BC2_UNORM_PREMULTIPLIED_ALPHA, encode_bc2(&block, &PLAIN, true).to_vec()),
        (Format::BC3_UNORM, encode_bc3(&block, &PLAIN, false).to_vec()),
        (Format::BC3_UNORM_PREMULTIPLIED_ALPHA, encode_bc3(&block, &PLAIN, true).to_vec()),
        (Format::BC4_UNORM, handle_bc4(&block, BC4).to_vec()),
        (Format::BC4_SNORM, handle_bc4(&block, Bc4Options { dither: false, snorm: true }).to_vec()),
        (Format::BC5_UNORM, handle_bc5(&block, BC4).to_vec()),
        (Format::BC5_SNORM, handle_bc5(&block, Bc4Options { dither: false, snorm: true }).to_vec()),
    ];
    for (format, bytes) in cases {
        assert_eq!(encode_bc_surface(format, &grid, &PLAIN), Ok(bytes));
    }
    // the mode with a transparent color is for BC1 alone
    assert_eq!(encode_bc1(&block, &PLAIN), [164, 8, 38, 195, 85, 85, 255, 0]);
}

#[test]
fn surface_lengths_are_those_of_the_layout() {
    let formats = [
        Format::BC1_UNORM,
        Format::BC2_UNORM,
        Format::BC2_UNORM_PREMULTIPLIED_ALPHA,
        Format::BC3_UNORM,
        Format::BC3_UNORM_PREMULTIPLIED_ALPHA,
        Format::BC4_UNORM,
        Format::BC4_SNORM,
        Format::BC5_UNORM,
        Format::BC5_SNORM,
    ];
    for (w, h) in [(1usize, 1usize), (3, 5), (4, 4), (7, 9), (16, 2)] {
        let image: Vec<Rgba8> =
            (0..w * h).map(|i| rgba(i as u8, (3 * i) as u8, (7 * i) as u8, (11 * i) as u8)).collect();
        let grid = PixelGrid::new(&image, w, h).unwrap();
        let header = Header::new_image(w as u32, h as u32, DxgiFormat(0));
        for format in formats {
            let layout = DataLayout::from_header_with(&header, format.pixel_info()).unwrap();
            let bytes = encode_bc_surface(format, &grid, &PLAIN).unwrap();
            assert_eq!(bytes.len() as u64, layout.data_len());
            let per_block = format.pixel_info().bytes_per_block as usize;
            assert_eq!(bytes.len(), ((w + 3) / 4) * ((h + 3) / 4) * per_block);
        }
    }
}

#[test]
fn surface_edges_repeat_the_last_pixels() {
    // a 5x5 image of one color but for its last row and column
    let mut image = [rgba(40, 80, 120, 255); 25];
    for i in 0..5 {
        image[20 + i] = rgba(200, 10, 10, 255);
        image[5 * i + 4] = rgba(200, 10, 10, 255);
    }
    let bytes =
        encode_bc_surface(Format::BC1_UNORM, &PixelGrid::new(&image, 5, 5).unwrap(), &PLAIN).unwrap();
    assert_eq!(bytes.len(), 32);
    // the blocks at the right and at the bottom hold the last column and row alone
    let edge = compress_bc1_block([rgba(200, 10, 10, 255); 16], BC1);
    assert_eq!(bytes[8..16], edge);
    assert_eq!(bytes[16..24], edge);
    assert_eq!(bytes[24..32], edge);
    assert_eq!(bytes[0..8], compress_bc1_block([rgba(40, 80, 120, 255); 16], BC1));
}

#[test]
fn surface_errors() {
    let image = [rgba(0, 0, 0, 0); 16];
    let grid = PixelGrid::new(&image, 4, 4).unwrap();
    for format in [Format::R8G8B8A8_UNORM, Format::BC7_UNORM, Format::BC6H_UF16, Format::R8_UNORM] {
        assert_eq!(
            encode_bc_surface(format, &grid, &PLAIN),
            Err(EncodeError::UnsupportedFormat(format))
        );
    }
    let empty = PixelGrid::new(&image[..0], 0, 3).unwrap();
    assert_eq!(encode_bc_surface(Format::BC1_UNORM, &empty, &PLAIN), Err(EncodeError::EmptySurface));
    // the format is checked first
    assert_eq!(
        encode_bc_surface(Format::BC7_UNORM, &empty, &PLAIN),
        Err(EncodeError::UnsupportedFormat(Format::BC7_UNORM))
    );
}

#[test]
fn block_at_the_start_of_rows() {
    // rows of 6 pixels: the pixel at (x, y) is 10 * y + x
    let data: Vec<Rgba8> = (0..4u8).flat_map(|y| (0..6u8).map(move |x| rgba(10 * y + x, 0, 0, 0))).collect();
    let reds = |block: [Rgba8; 16]| block.map(|p| p.r);
    assert_eq!(
        reds(dds::get_4x4_rgba(&data, 6)),
        [0, 1, 2, 3, 10, 11, 12, 13, 20, 21, 22, 23, 30, 31, 32, 33]
    );
    assert_eq!(
        reds(dds::get_4x4_rgba(&data[2..], 6)),
        [2, 3, 4, 5, 12, 13, 14, 15, 22, 23, 24, 25, 32, 33, 34, 35]
    );
    // rows on top of each other
    assert_eq!(reds(dds::get_4x4_rgba(&data, 0)), [0, 1, 2, 3, 0, 1, 2, 3, 0, 1, 2, 3, 0, 1, 2, 3]);
}
