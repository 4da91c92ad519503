use dds::{
    bc2_alpha, block_universal, concat_blocks, get_bc1_options, get_bc3_options, get_bc4_options,
    Bc1Options, Bc4Options, DataLayout, Dithering, DxgiFormat, EncodeError, EncodeOptions, Format,
    Header, PixelGrid,
};
use dds::encode::bc::{bayer_threshold, n4_from_u8, n4_to_u8};

fn options(color: bool, alpha: bool) -> EncodeOptions {
    EncodeOptions { dithering: Dithering { color, alpha } }
}

#[test]
fn bc_concat_blocks() {
    let left = [1, 2, 3, 4, 5, 6, 7, 8];
    let right = [9, 10, 11, 12, 13, 14, 15, 16];
    assert_eq!(concat_blocks(left, right), [1, 2, 3, 4, 5, 6, 7, 8, 9, 10, 11, 12, 13, 14, 15, 16]);
    assert_eq!(
        concat_blocks(right, left),
        [9, 10, 11, 12, 13, 14, 15, 16, 1, 2, 3, 4, 5, 6, 7, 8]
    );
}

#[test]
fn bc_options() {
    for color in [false, true] {
        for alpha in [false, true] {
            let o = options(color, alpha);
            assert_eq!(get_bc1_options(&o), Bc1Options { dither: color, no_default: false });
            assert_eq!(get_bc4_options(&o), Bc4Options { dither: color, snorm: false });
            assert_eq!(
                get_bc3_options(&o),
                (
                    Bc1Options { dither: color, no_default: true },
                    Bc4Options { dither: color, snorm: false }
                )
            );
        }
    }
}

#[test]
fn bc_grid_needs_a_pixel_for_each_place() {
    let data = [0u8; 12];
    assert!(PixelGrid::new(&data, 4, 3).is_some());
    assert!(PixelGrid::new(&data, 12, 1).is_some());
    assert!(PixelGrid::new(&data, 4, 4).is_none());
    assert!(PixelGrid::new(&data, 0, 0).is_none());
    assert!(PixelGrid::new(&data, usize::MAX, usize::MAX).is_none());
    assert!(PixelGrid::new(&data[..0], 0, 7).is_some());
    let grid = PixelGrid::new(&data, 6, 2).unwrap();
    assert_eq!((grid.width(), grid.height()), (6, 2));
}

#[test]
fn bc_tiles_of_full_blocks() {
    // 8x4: the pixel at (x, y) is 10 * y + x
    let data: Vec<u8> = (0..4).flat_map(|y| (0..8).map(move |x| 10 * y + x)).collect();
    let grid = PixelGrid::new(&data, 8, 4).unwrap();
    let tiles = block_universal(&grid).unwrap();
    assert_eq!(tiles.len(), 2);
    assert_eq!(tiles[0], [0, 1, 2, 3, 10, 11, 12, 13, 20, 21, 22, 23, 30, 31, 32, 33]);
    assert_eq!(tiles[1], [4, 5, 6, 7, 14, 15, 16, 17, 24, 25, 26, 27, 34, 35, 36, 37]);
    assert_eq!(grid.gather_block(1, 0), tiles[1]);
}

#[test]
fn bc_tiles_repeat_the_last_column_and_row() {
    // 5x3: the pixel at (x, y) is 10 * y + x
    let data: Vec<u8> = (0..3).flat_map(|y| (0..5).map(move |x| 10 * y + x)).collect();
    let grid = PixelGrid::new(&data, 5, 3).unwrap();
    let tiles = block_universal(&grid).unwrap();
    assert_eq!(tiles.len(), 2);
    // the last row, not the first, fills the block
    assert_eq!(tiles[0], [0, 1, 2, 3, 10, 11, 12, 13, 20, 21, 22, 23, 20, 21, 22, 23]);
    assert_eq!(tiles[1], [4, 4, 4, 4, 14, 14, 14, 14, 24, 24, 24, 24, 24, 24, 24, 24]);
    // 1x1
    let one = [7u16];
    let grid = PixelGrid::new(&one, 1, 1).unwrap();
    assert_eq!(block_universal(&grid).unwrap(), [[7u16; 16]]);
}

#[test]
fn bc_tiles_in_the_order_of_blocks() {
    // 9x6 of pairs (x, y): 3 by 2 blocks
    let data: Vec<(u8, u8)> = (0..6).flat_map(|y| (0..9).map(move |x| (x, y))).collect();
    let grid = PixelGrid::new(&data, 9, 6).unwrap();
    let tiles = block_universal(&grid).unwrap();
    assert_eq!(tiles.len(), 6);
    for (k, tile) in tiles.iter().enumerate() {
        let (bx, by) = (k % 3, k / 3);
        for (t, pixel) in tile.iter().enumerate() {
            let x = (4 * bx + t % 4).min(8) as u8;
            let y = (4 * by + t / 4).min(5) as u8;
            assert_eq!(*pixel, (x, y));
        }
    }
}

#[test]
fn bc_empty_image() {
    let data: [u8; 0] = [];
    for (w, h) in [(0, 0), (0, 5), (5, 0)] {
        let grid = PixelGrid::new(&data, w, h).unwrap();
        assert_eq!(block_universal(&grid), Err(EncodeError::EmptySurface));
    }
}

#[test]
fn bc_as_many_tiles_as_the_layout_has_blocks() {
    for (w, h) in [(1usize, 1usize), (4, 4), (5, 3), (8, 9), (17, 2)] {
        let data = vec![0u8; w * h];
        let tiles = block_universal(&PixelGrid::new(&data, w, h).unwrap()).unwrap();
        let header = Header::new_image(w as u32, h as u32, DxgiFormat(0));
        for (format, bytes) in [(Format::BC1_UNORM, 8), (Format::BC4_SNORM, 8), (Format::BC2_UNORM, 16), (Format::BC5_UNORM, 16)] {
            let layout = DataLayout::from_header_with(&header, format.pixel_info()).unwrap();
            assert_eq!(layout.data_len(), (tiles.len() * bytes) as u64);
            assert_eq!(layout.data_len(), ((w as u64 + 3) / 4) * ((h as u64 + 3) / 4) * bytes as u64);
        }
    }
}

#[test]
fn bc_n4() {
    assert_eq!(n4_from_u8(0, 0, false), 0);
    assert_eq!(n4_from_u8(8, 0, false), 0);
    assert_eq!(n4_from_u8(9, 0, false), 1);
    assert_eq!(n4_from_u8(17, 5, false), 1);
    assert_eq!(n4_from_u8(25, 5, false), 1);
    assert_eq!(n4_from_u8(26, 5, false), 2);
    assert_eq!(n4_from_u8(246, 15, false), 14);
    assert_eq!(n4_from_u8(247, 15, false), 15);
    assert_eq!(n4_from_u8(255, 15, false), 15);
    for v in 0..16u8 {
        assert_eq!(n4_to_u8(v), v * 17);
        for i in 0..16 {
            assert_eq!(n4_from_u8(v * 17, i, false), v);
            // dithering leaves exact values alone
            assert_eq!(n4_from_u8(v * 17, i, true), v);
        }
    }
    let thresholds: Vec<u8> = (0..16).map(bayer_threshold).collect();
    assert_eq!(thresholds, [0, 8, 2, 10, 12, 4, 14, 6, 3, 11, 1, 9, 15, 7, 13, 5]);
    // 8 lies between 0 and 17: the pixels with the higher thresholds go up
    let up: Vec<u8> = (0..16).map(|i| n4_from_u8(8, i, true)).collect();
    assert_eq!(up, [0, 1, 0, 1, 1, 0, 1, 0, 0, 1, 0, 1, 1, 0, 1, 0]);
    // 4 is a quarter of the way: a quarter of the pixels go up
    let quarter: u8 = (0..16).map(|i| n4_from_u8(4, i, true)).sum();
    assert_eq!(quarter, 4);
}

#[test]
fn bc_bc2_alpha() {
    let alpha = [0, 255, 17, 8, 9, 128, 127, 254, 1, 2, 3, 4, 250, 251, 34, 68];
    assert_eq!(
        bc2_alpha(alpha, &options(false, false)),
        [0xF0, 0x01, 0x81, 0xF7, 0x00, 0x00, 0xFF, 0x42]
    );
    // color dithering does not touch alpha
    assert_eq!(bc2_alpha(alpha, &options(true, false)), bc2_alpha(alpha, &options(false, false)));
    assert_eq!(bc2_alpha([255; 16], &options(false, true)), [0xFF; 8]);
    assert_eq!(bc2_alpha([0; 16], &options(false, true)), [0; 8]);
    // 8 lies between two values: dithered, pixel by pixel, by its threshold
    assert_eq!(
        bc2_alpha([8; 16], &options(false, true)),
        [0x10, 0x10, 0x01, 0x01, 0x10, 0x10, 0x01, 0x01]
    );
    assert_eq!(bc2_alpha([8; 16], &options(false, false)), [0; 8]);
}
