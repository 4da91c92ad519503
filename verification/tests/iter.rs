use dds::{
    DataLayout, DecodeError, DxgiFormat, Format, Header, LevelKind, Size, SlotKind, SurfaceInfo,
    SurfaceIterator,
};

fn iterator(header: &Header, format: Format) -> SurfaceIterator {
    SurfaceIterator::new(DataLayout::from_header_with(header, format.pixel_info()).unwrap())
}

fn walk(mut it: SurfaceIterator) -> Vec<(u64, SurfaceInfo)> {
    let mut all = Vec::new();
    while let Some(info) = it.current() {
        assert_eq!(it.index(), all.len() as u64);
        all.push((it.offset(), info));
        it.advance();
    }
    assert!(it.is_exhausted());
    assert_eq!(it.offset(), it.layout().data_len());
    assert_eq!(it.index(), it.layout().surface_count());
    // at the end, advancing goes nowhere
    let end = it;
    it.advance();
    assert_eq!(it, end);
    all
}

#[test]
fn iter_texture_array_in_file_order() {
    let h = Header::new_image(4, 4, DxgiFormat(28)).with_mipmap_count(3).with_array_size(2);
    let all = walk(iterator(&h, Format::R8G8B8A8_UNORM));
    let offsets: Vec<u64> = all.iter().map(|s| s.0).collect();
    assert_eq!(offsets, [0, 64, 80, 84, 148, 164]);
    let lens: Vec<u64> = all.iter().map(|s| s.1.data_len()).collect();
    assert_eq!(lens, [64, 16, 4, 64, 16, 4]);
    let places: Vec<(u32, u8)> = all.iter().map(|s| (s.1.slot, s.1.level)).collect();
    assert_eq!(places, [(0, 0), (0, 1), (0, 2), (1, 0), (1, 1), (1, 2)]);
    assert_eq!(
        all[4].1,
        SurfaceInfo {
            size: Size { width: 2, height: 2 },
            byte_length: 16,
            level: 1,
            slot: 1,
            slot_kind: SlotKind::ArraySlice,
        }
    );
    assert!(all[4].1.is_mipmap());
    assert!(!all[3].1.is_mipmap());
    assert_eq!(all[3].1.level_kind(), LevelKind::Mip0);
    assert_eq!(all[5].1.level_kind(), LevelKind::MipN);
    assert_eq!(all[5].1.size(), Size { width: 1, height: 1 });
}

#[test]
fn iter_offsets_are_sums_of_lengths() {
    let headers = [
        (Header::new_image(37, 21, DxgiFormat(71)).with_mipmap_count(7).with_array_size(3), Format::BC1_UNORM),
        (Header::new_cube_map(16, 16, DxgiFormat(77)).with_mipmap_count(5), Format::BC3_UNORM),
        (Header::new_volume(9, 5, 6, DxgiFormat(28)).with_mipmap_count(4), Format::R8G8B8A8_UNORM),
        (Header::new_volume(4, 4, 1, DxgiFormat(61)).with_mipmap_count(3), Format::R8_UNORM),
    ];
    let counts = [21u64, 30, 6 + 3 + 1 + 1, 3];
    for ((h, f), count) in headers.iter().zip(counts) {
        let it = iterator(h, *f);
        let all = walk(it);
        assert_eq!(all.len() as u64, count);
        assert_eq!(it.layout().surface_count(), count);
        let mut sum = 0;
        for (offset, info) in &all {
            assert_eq!(*offset, sum);
            sum += info.data_len();
        }
        assert_eq!(sum, it.layout().data_len());
    }
}

#[test]
fn iter_volume_in_file_order() {
    let h = Header::new_volume(8, 4, 4, DxgiFormat(28)).with_mipmap_count(4);
    let all = walk(iterator(&h, Format::R8G8B8A8_UNORM));
    let places: Vec<(u8, u32)> = all.iter().map(|s| (s.1.level, s.1.slot)).collect();
    assert_eq!(places, [(0, 0), (0, 1), (0, 2), (0, 3), (1, 0), (1, 1), (2, 0), (3, 0)]);
    let sizes: Vec<(u32, u32)> = all.iter().map(|s| (s.1.size.width, s.1.size.height)).collect();
    assert_eq!(sizes, [(8, 4), (8, 4), (8, 4), (8, 4), (4, 2), (4, 2), (2, 1), (1, 1)]);
    assert!(all.iter().all(|s| s.1.slot_kind == SlotKind::DepthSlice));
    assert_eq!(all[4].0, 4 * 128);
    assert_eq!(all[7].0, 4 * 128 + 2 * 32 + 8);
}

#[test]
fn iter_cube_map_faces() {
    let h = Header::new_cube_map(2, 2, DxgiFormat(28)).with_array_size(2);
    let all = walk(iterator(&h, Format::R8G8B8A8_UNORM));
    assert_eq!(all.len(), 12);
    for (k, (offset, info)) in all.iter().enumerate() {
        assert_eq!(info.slot as usize, k);
        assert_eq!(info.slot_kind, SlotKind::CubeFace);
        assert_eq!(*offset, 16 * k as u64);
    }
}

#[test]
fn iter_skip_mipmaps_is_advancing_to_the_next_level_0() {
    let h = Header::new_image(16, 16, DxgiFormat(71)).with_mipmap_count(5).with_array_size(3);
    let start = iterator(&h, Format::BC1_UNORM);
    let count = start.layout().surface_count();
    let mut from = start;
    for _ in 0..=count {
        let mut skipped = from;
        let bytes = skipped.skip_mipmaps().unwrap();
        let mut stepped = from;
        while stepped.current().map_or(false, |s| s.is_mipmap()) {
            stepped.advance();
        }
        assert_eq!(skipped, stepped);
        assert_eq!(bytes, stepped.offset() - from.offset());
        from.advance();
    }
}

#[test]
fn iter_skip_mipmaps_without_mipmaps() {
    let h = Header::new_image(16, 16, DxgiFormat(28)).with_array_size(3);
    let mut it = iterator(&h, Format::R8G8B8A8_UNORM);
    for k in 0..3 {
        assert_eq!(it.skip_mipmaps(), Ok(0));
        assert_eq!(it.index(), k);
        it.advance();
    }
    assert_eq!(it.skip_mipmaps(), Ok(0));
    assert!(it.is_exhausted());
}

#[test]
fn iter_cube_map_skip_mipmaps() {
    // 5 levels a face: 16x16, 8x8, 4x4, 2x2, 1x1 in BC3
    let h = Header::new_cube_map(16, 16, DxgiFormat(77)).with_mipmap_count(5);
    let mut it = iterator(&h, Format::BC3_UNORM);
    // before anything is read, there is nothing to skip
    assert_eq!(it.skip_mipmaps(), Ok(0));
    assert_eq!(it.index(), 0);
    for face in 0..6u32 {
        let main = it.current().unwrap();
        assert_eq!((main.slot, main.level), (face, 0));
        assert_eq!(it.offset(), face as u64 * 368);
        it.advance();
        // the mipmaps of this face: 64 + 16 + 16 + 16 bytes
        assert_eq!(it.skip_mipmaps(), Ok(112));
        assert_eq!(it.index(), (face as u64 + 1) * 5);
    }
    assert!(it.is_exhausted());
    assert_eq!(it.skip_mipmaps(), Ok(0));
}

#[test]
fn iter_skip_mipmaps_from_the_middle_of_a_chain() {
    let h = Header::new_cube_map(16, 16, DxgiFormat(77)).with_mipmap_count(5);
    let mut it = iterator(&h, Format::BC3_UNORM);
    for _ in 0..3 {
        it.advance();
    }
    assert_eq!(it.skip_mipmaps(), Ok(32));
    assert_eq!(it.index(), 5);
}

#[test]
fn iter_volume_skip_mipmaps() {
    let h = Header::new_volume(16, 16, 16, DxgiFormat(28)).with_mipmap_count(5);
    let mut it = iterator(&h, Format::R8G8B8A8_UNORM);
    // at the start: nothing to skip
    assert_eq!(it.skip_mipmaps(), Ok(0));
    assert_eq!(it.index(), 0);
    // within level 0: refused, and the iterator stays
    for slice in 0..4 {
        assert_eq!(it.current().unwrap().slot, slice);
        it.advance();
    }
    let before = it;
    assert_eq!(it.skip_mipmaps(), Err(DecodeError::CannotSkipMipmapsInVolume));
    assert_eq!(it, before);
    // after level 0: the rest of the file is skipped
    for _ in 4..16 {
        it.advance();
    }
    assert_eq!(it.current().unwrap().level, 1);
    assert_eq!(it.offset(), 16 * 1024);
    assert_eq!(it.skip_mipmaps(), Ok(8 * 256 + 4 * 64 + 2 * 16 + 4));
    assert!(it.is_exhausted());
    assert_eq!(it.offset(), it.layout().data_len());
    assert_eq!(it.index(), 31);
    assert_eq!(it.skip_mipmaps(), Ok(0));
}

#[test]
fn iter_volume_skip_mipmaps_within_a_mipmap() {
    let h = Header::new_volume(16, 16, 16, DxgiFormat(28)).with_mipmap_count(5);
    let mut it = iterator(&h, Format::R8G8B8A8_UNORM);
    for _ in 0..17 {
        it.advance();
    }
    assert_eq!((it.current().unwrap().level, it.current().unwrap().slot), (1, 1));
    assert_eq!(it.skip_mipmaps(), Err(DecodeError::CannotSkipMipmapsInVolume));
    // at the first depth slice of level 2
    for _ in 17..24 {
        it.advance();
    }
    assert_eq!((it.current().unwrap().level, it.current().unwrap().slot), (2, 0));
    assert_eq!(it.skip_mipmaps(), Ok(4 * 64 + 2 * 16 + 4));
    assert!(it.is_exhausted());
}

#[test]
fn layout_surface_is_what_the_iterator_finds() {
    let headers = [
        (Header::new_image(37, 21, DxgiFormat(71)).with_mipmap_count(7).with_array_size(3), Format::BC1_UNORM),
        (Header::new_image(5, 5, DxgiFormat(28)).with_array_size(4), Format::R8G8B8A8_UNORM),
        (Header::new_cube_map(16, 16, DxgiFormat(77)).with_mipmap_count(5), Format::BC3_UNORM),
        (Header::new_volume(9, 5, 6, DxgiFormat(28)).with_mipmap_count(4), Format::R8G8B8A8_UNORM),
        (Header::new_volume(4, 4, 1, DxgiFormat(61)).with_mipmap_count(3), Format::R8_UNORM),
        (Header::new_volume(2, 2, 9, DxgiFormat(61)), Format::R8_UNORM),
    ];
    for (h, f) in headers {
        let it = iterator(&h, f);
        let layout = it.layout();
        let all = walk(it);
        for (k, (offset, info)) in all.iter().enumerate() {
            let d = layout.surface(k as u64).unwrap();
            assert_eq!(d.offset, *offset);
            assert_eq!(d.size, info.size);
            assert_eq!(d.byte_length, info.byte_length);
            assert_eq!(d.level, info.level);
            assert_eq!(d.slot, info.slot);
        }
        assert_eq!(layout.surface(all.len() as u64), None);
        assert_eq!(layout.surface(u64::MAX), None);
    }
}

#[test]
fn layout_surface_far_into_a_large_layout() {
    // 2^32 - 4 faces of 3 levels: 4x4, 2x2, 1x1 in one byte a pixel
    let h = Header::new_cube_map(4, 4, DxgiFormat(61)).with_mipmap_count(3).with_array_size(0x2AAA_AAAA);
    let layout = DataLayout::from_header_with(&h, Format::R8_UNORM.pixel_info()).unwrap();
    assert_eq!(layout.surface_count(), 0xFFFF_FFFC * 3);
    let d = layout.surface(0xFFFF_FFFB * 3 + 2).unwrap();
    assert_eq!((d.slot, d.level), (0xFFFF_FFFB, 2));
    assert_eq!(d.offset, 0xFFFF_FFFB * 21 + 20);
    assert_eq!(d.offset + d.byte_length, layout.data_len());
    // the last depth slice of a deep volume
    let h = Header::new_volume(1, 1, u32::MAX, DxgiFormat(61)).with_mipmap_count(2);
    let layout = DataLayout::from_header_with(&h, Format::R8_UNORM.pixel_info()).unwrap();
    assert_eq!(layout.surface_count(), 0xFFFF_FFFF + 0x7FFF_FFFF);
    let d = layout.surface(0xFFFF_FFFF + 0x7FFF_FFFE).unwrap();
    assert_eq!((d.level, d.slot), (1, 0x7FFF_FFFE));
    assert_eq!(d.offset + 1, layout.data_len());
    let d = layout.surface(0xFFFF_FFFE).unwrap();
    assert_eq!((d.level, d.slot, d.offset), (0, 0xFFFF_FFFE, 0xFFFF_FFFE));
}
