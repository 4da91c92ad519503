use dds::{
    DataLayout, DxgiFormat, Format, Header, LayoutError, LayoutKind, PixelInfo, Size,
};

fn layout_of(header: &Header, format: Format) -> Result<DataLayout, LayoutError> {
    DataLayout::from_header_with(header, format.pixel_info())
}

#[test]
fn layout_mip_chain_rgba8() {
    let h = Header::new_image(64, 64, DxgiFormat(28)).with_mipmap_count(7);
    let layout = layout_of(&h, Format::R8G8B8A8_UNORM).unwrap();
    assert_eq!(layout.kind(), LayoutKind::Texture);
    assert_eq!(layout.main_size(), Size { width: 64, height: 64 });
    assert_eq!(layout.mipmaps(), 7);
    assert_eq!(layout.slots(), 1);
    assert_eq!(layout.depth(), 1);
    assert_eq!(layout.surface_count(), 7);
    assert_eq!(layout.data_len(), 16384 + 4096 + 1024 + 256 + 64 + 16 + 4);
    assert!(!layout.is_volume());
}

#[test]
fn layout_mipmap_count_zero_is_one() {
    let h = Header::new_image(3, 5, DxgiFormat(28)).with_mipmap_count(0);
    let layout = layout_of(&h, Format::R8G8B8A8_UNORM).unwrap();
    assert_eq!(layout.mipmaps(), 1);
    assert_eq!(layout.data_len(), 60);
}

#[test]
fn layout_more_levels_than_halvings() {
    // 4x1 with 5 levels: 4x1, 2x1, 1x1, 1x1, 1x1
    let h = Header::new_image(4, 1, DxgiFormat(61)).with_mipmap_count(5);
    let layout = layout_of(&h, Format::R8_UNORM).unwrap();
    assert_eq!(layout.surface_count(), 5);
    assert_eq!(layout.data_len(), 4 + 2 + 1 + 1 + 1);
}

#[test]
fn layout_block_compressed_small_levels() {
    // 8x8, 4x4, 2x2, 1x1 in BC1: 4 blocks, then one block each
    let h = Header::new_image(8, 8, DxgiFormat(71)).with_mipmap_count(4);
    let layout = layout_of(&h, Format::BC1_UNORM).unwrap();
    assert_eq!(layout.data_len(), 32 + 8 + 8 + 8);
    // 5x3 in BC3: two blocks in a row
    let h = Header::new_image(5, 3, DxgiFormat(77));
    assert_eq!(layout_of(&h, Format::BC3_UNORM).unwrap().data_len(), 32);
    // 9x13 in BC4: 3 by 4 blocks
    let h = Header::new_image(9, 13, DxgiFormat(80));
    assert_eq!(layout_of(&h, Format::BC4_UNORM).unwrap().data_len(), 3 * 4 * 8);
}

#[test]
fn layout_texture_array() {
    let h = Header::new_image(4, 4, DxgiFormat(28)).with_mipmap_count(3).with_array_size(5);
    let layout = layout_of(&h, Format::R8G8B8A8_UNORM).unwrap();
    assert_eq!(layout.slots(), 5);
    assert_eq!(layout.surface_count(), 15);
    assert_eq!(layout.data_len(), 5 * (64 + 16 + 4));
    let empty = layout_of(&h.with_array_size(0), Format::R8G8B8A8_UNORM).unwrap();
    assert_eq!(empty.surface_count(), 0);
    assert_eq!(empty.data_len(), 0);
}

#[test]
fn layout_cube_map() {
    let h = Header::new_cube_map(16, 16, DxgiFormat(77)).with_mipmap_count(5);
    let layout = layout_of(&h, Format::BC3_UNORM).unwrap();
    assert_eq!(layout.kind(), LayoutKind::CubeMap);
    assert_eq!(layout.slots(), 6);
    assert_eq!(layout.surface_count(), 30);
    assert_eq!(layout.data_len(), 6 * (256 + 64 + 16 + 16 + 16));
    let two = layout_of(&h.with_array_size(2), Format::BC3_UNORM).unwrap();
    assert_eq!(two.slots(), 12);
    assert_eq!(two.data_len(), 12 * 368);
}

#[test]
fn layout_volume() {
    let h = Header::new_volume(16, 16, 16, DxgiFormat(28)).with_mipmap_count(5);
    let layout = layout_of(&h, Format::R8G8B8A8_UNORM).unwrap();
    assert_eq!(layout.kind(), LayoutKind::Volume);
    assert!(layout.is_volume());
    assert_eq!(layout.depth(), 16);
    assert_eq!(layout.slots(), 1);
    assert_eq!(layout.surface_count(), 16 + 8 + 4 + 2 + 1);
    assert_eq!(layout.data_len(), 16 * 1024 + 8 * 256 + 4 * 64 + 2 * 16 + 4);
    // a volume that `caps2` declares, without a header extension
    let mut legacy = h;
    legacy.dx10 = None;
    assert_eq!(layout_of(&legacy, Format::R8G8B8A8_UNORM).unwrap(), layout);
}

#[test]
fn layout_zero_dimension() {
    for (w, h) in [(0u32, 4u32), (4, 0), (0, 0)] {
        let header = Header::new_image(w, h, DxgiFormat(28));
        assert_eq!(layout_of(&header, Format::R8G8B8A8_UNORM), Err(LayoutError::ZeroDimension));
    }
    let volume = Header::new_volume(4, 4, 0, DxgiFormat(28));
    assert_eq!(layout_of(&volume, Format::R8G8B8A8_UNORM), Err(LayoutError::ZeroDimension));
    // the depth of a texture is not looked at
    let mut texture = Header::new_image(4, 4, DxgiFormat(28));
    texture.depth = 0;
    assert!(layout_of(&texture, Format::R8G8B8A8_UNORM).is_ok());
}

#[test]
fn layout_missing_depth() {
    let mut volume = Header::new_volume(4, 4, 4, DxgiFormat(28));
    volume.flags = 0x1007;
    assert_eq!(layout_of(&volume, Format::R8G8B8A8_UNORM), Err(LayoutError::MissingDepth));
}

#[test]
fn layout_too_many_mipmaps() {
    let h = Header::new_image(4, 4, DxgiFormat(28));
    assert_eq!(
        layout_of(&h.with_mipmap_count(256), Format::R8G8B8A8_UNORM),
        Err(LayoutError::TooManyMipMaps(256))
    );
    let most = layout_of(&h.with_mipmap_count(255), Format::R8G8B8A8_UNORM).unwrap();
    assert_eq!(most.mipmaps(), 255);
    assert_eq!(most.data_len(), 64 + 16 + 253 * 4);
}

#[test]
fn layout_array_size_too_big() {
    let cube = Header::new_cube_map(4, 4, DxgiFormat(28));
    assert_eq!(
        layout_of(&cube.with_array_size(0x2AAA_AAAB), Format::R8G8B8A8_UNORM),
        Err(LayoutError::ArraySizeTooBig(0x2AAA_AAAB))
    );
    let most = layout_of(&cube.with_array_size(0x2AAA_AAAA), Format::R8G8B8A8_UNORM).unwrap();
    assert_eq!(most.slots(), 0xFFFF_FFFC);
    // a volume is no array
    let mut volume = Header::new_image(4, 4, DxgiFormat(28)).with_array_size(2);
    volume.caps2 = 0x20_0000;
    volume.flags |= 0x80_0000;
    volume.depth = 4;
    assert_eq!(
        layout_of(&volume, Format::R8G8B8A8_UNORM),
        Err(LayoutError::ArraySizeTooBig(2))
    );
    assert_eq!(
        layout_of(&volume.with_array_size(0), Format::R8G8B8A8_UNORM),
        Err(LayoutError::ArraySizeTooBig(0))
    );
}

#[test]
fn layout_invalid_cube_map_faces() {
    let cube = Header::new_cube_map(4, 4, DxgiFormat(28));
    let mut missing_face = cube;
    missing_face.caps2 = 0x200 | 0xFC00 & !0x400;
    assert_eq!(
        layout_of(&missing_face, Format::R8G8B8A8_UNORM),
        Err(LayoutError::InvalidCubeMapFaces)
    );
    let mut no_faces = cube;
    no_faces.caps2 = 0x200;
    assert_eq!(
        layout_of(&no_faces, Format::R8G8B8A8_UNORM),
        Err(LayoutError::InvalidCubeMapFaces)
    );
    let mut of_volumes = cube;
    of_volumes.caps2 |= 0x20_0000;
    assert_eq!(
        layout_of(&of_volumes, Format::R8G8B8A8_UNORM),
        Err(LayoutError::InvalidCubeMapFaces)
    );
    let mut of_1d = cube;
    let mut d = of_1d.dx10.unwrap();
    d.resource_dimension = dds::ResourceDimension::Texture1D;
    of_1d.dx10 = Some(d);
    assert_eq!(layout_of(&of_1d, Format::R8G8B8A8_UNORM), Err(LayoutError::InvalidCubeMapFaces));
}

#[test]
fn layout_order_of_checks() {
    // zero dimension before everything else
    let mut h = Header::new_cube_map(0, 4, DxgiFormat(28)).with_mipmap_count(999);
    h.caps2 = 0x200;
    assert_eq!(layout_of(&h, Format::R8G8B8A8_UNORM), Err(LayoutError::ZeroDimension));
    // the shape before the mipmap count
    h.width = 4;
    assert_eq!(layout_of(&h, Format::R8G8B8A8_UNORM), Err(LayoutError::InvalidCubeMapFaces));
    h.caps2 = 0xFE00;
    assert_eq!(layout_of(&h, Format::R8G8B8A8_UNORM), Err(LayoutError::TooManyMipMaps(999)));
}

#[test]
fn layout_too_big() {
    // 2^32 - 1 squared, 16 bytes a pixel: more than 2^64
    let h = Header::new_image(u32::MAX, u32::MAX, DxgiFormat(2));
    assert_eq!(layout_of(&h, Format::R32G32B32A32_FLOAT), Err(LayoutError::DataLayoutTooBig));
    // one byte a pixel fits
    let small = layout_of(&h, Format::R8_UNORM).unwrap();
    assert_eq!(small.data_len(), 0xFFFF_FFFE_0000_0001);
    // with a second level it does not
    assert_eq!(
        layout_of(&h.with_mipmap_count(2), Format::R8_UNORM),
        Err(LayoutError::DataLayoutTooBig)
    );
    // a volume of 2^20 cubed with 16 bytes a pixel takes exactly 2^64 bytes
    let cube = Header::new_volume(1 << 20, 1 << 20, 1 << 20, DxgiFormat(2));
    assert_eq!(layout_of(&cube, Format::R32G32B32A32_FLOAT), Err(LayoutError::DataLayoutTooBig));
    let less = Header::new_volume(1 << 20, 1 << 20, (1 << 20) - 1, DxgiFormat(2));
    assert_eq!(
        layout_of(&less, Format::R32G32B32A32_FLOAT).unwrap().data_len(),
        u64::MAX - (1 << 44) + 1
    );
}

#[test]
fn layout_volume_of_65535_cubed_fits() {
    let h = Header::new_volume(65535, 65535, 65535, DxgiFormat(2));
    let layout = layout_of(&h, Format::R32G32B32A32_FLOAT).unwrap();
    assert_eq!(layout.data_len(), 65535u64 * 65535 * 65535 * 16);
    assert_eq!(layout.data_len(), 4_503_393_472_086_000);
    assert_eq!(layout.surface_count(), 65535);
}

#[test]
fn layout_block_size_of_bc_formats() {
    let eight = [Format::BC1_UNORM, Format::BC4_UNORM, Format::BC4_SNORM];
    let sixteen = [
        Format::BC2_UNORM,
        Format::BC2_UNORM_PREMULTIPLIED_ALPHA,
        Format::BC3_UNORM,
        Format::BC3_UNORM_PREMULTIPLIED_ALPHA,
        Format::BC5_UNORM,
        Format::BC5_SNORM,
    ];
    for (w, h) in [(1u32, 1u32), (4, 4), (5, 3), (8, 9), (255, 257)] {
        let header = Header::new_image(w, h, DxgiFormat(0));
        let blocks = ((w as u64 + 3) / 4) * ((h as u64 + 3) / 4);
        for f in eight {
            assert_eq!(layout_of(&header, f).unwrap().data_len(), blocks * 8);
        }
        for f in sixteen {
            assert_eq!(layout_of(&header, f).unwrap().data_len(), blocks * 16);
        }
    }
}

#[test]
fn layout_surface_bytes_and_mip_dims() {
    let bc1 = PixelInfo { bytes_per_block: 8, block_width: 4, block_height: 4 };
    assert_eq!(bc1.surface_bytes(0, 7), 0);
    assert_eq!(bc1.surface_bytes(1, 1), 8);
    assert_eq!(bc1.surface_bytes(u32::MAX, u32::MAX), (1u128 << 30) * (1u128 << 30) * 8);
    assert_eq!(dds::layout::half_dim(1), 1);
    assert_eq!(dds::layout::half_dim(2), 1);
    assert_eq!(dds::layout::half_dim(7), 3);
    assert_eq!(dds::layout::mip_dim_of(100, 0), 100);
    assert_eq!(dds::layout::mip_dim_of(100, 3), 12);
    assert_eq!(dds::layout::mip_dim_of(100, 6), 1);
    assert_eq!(dds::layout::mip_dim_of(100, 200), 1);
}
