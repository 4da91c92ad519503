//! The data layout: where each surface of a file lies, and in which order.
//!
//! The layout is a function of the header and of the block geometry of the
//! pixel format. Its mathematical model is [`LayoutModel`]; the executable
//! [`DataLayout`] is a checked copy of it whose total size fits in 64 bits.

use vstd::prelude::*;

use crate::error::LayoutError;
use crate::format::PixelInfo;
use crate::header::{
    Header, ResourceDimension, DDSCAPS2_CUBEMAP, DDSCAPS2_CUBEMAP_ALL_FACES, DDSCAPS2_VOLUME,
    DDSD_DEPTH,
};

verus! {

/// The extent of a surface in pixels.
#[derive(Debug, Clone, Copy, PartialEq, Eq, Structural)]
pub struct Size {
    pub width: u32,
    pub height: u32,
}

/// The three shapes of a data section.
#[derive(Debug, Clone, Copy, PartialEq, Eq, Structural)]
pub enum LayoutKind {
    /// Array slices, each with its chain of mipmaps.
    Texture,
    /// Cube faces, six for each array element, each with its chain of
    /// mipmaps.
    CubeMap,
    /// Mipmap levels, each with its depth slices.
    Volume,
}

/// An extent at the next mipmap level: half of it, and never less than one.
pub open spec fn half(d: nat) -> nat {
    if d / 2 == 0 {
        1
    } else {
        d / 2
    }
}

/// An extent at mipmap level `level`, where level 0 has the extent `d`.
pub open spec fn mip_dim(d: nat, level: nat) -> nat
    decreases level,
{
    if level == 0 {
        d
    } else {
        half(mip_dim(d, (level - 1) as nat))
    }
}

/// The number of blocks that cover `d` pixels: `d / block`, rounded up.
pub open spec fn blocks(d: nat, block: nat) -> nat {
    (d + block - 1) as nat / block
}

impl PixelInfo {
    /// The number of bytes of a surface of the given extent.
    pub open spec fn surface_len(self, width: nat, height: nat) -> nat {
        blocks(width, self.block_width as nat) * blocks(height, self.block_height as nat) * (
        self.bytes_per_block as nat)
    }
}

/// One surface of a layout.
pub struct SurfaceModel {
    pub width: nat,
    pub height: nat,
    /// The number of bytes of the surface.
    pub len: nat,
    /// The mipmap level.
    pub level: nat,
    /// The array slice or cube face, or within a volume the depth slice.
    pub slot: nat,
}

/// The mathematical model of a data layout.
pub struct LayoutModel {
    pub kind: LayoutKind,
    /// The extent of level 0.
    pub width: nat,
    pub height: nat,
    /// The number of depth slices of level 0; 1 but for a volume.
    pub depth: nat,
    /// The number of array slices or cube faces; 1 for a volume.
    pub slots: nat,
    /// The number of mipmap levels, level 0 included.
    pub mipmaps: nat,
    pub pixel: PixelInfo,
}

impl LayoutModel {
    pub open spec fn wf(self) -> bool {
        &&& self.width >= 1
        &&& self.height >= 1
        &&& self.depth >= 1
        &&& 1 <= self.mipmaps <= 255
        &&& self.pixel.wf()
        &&& self.kind == LayoutKind::Volume ==> self.slots == 1
        &&& self.kind != LayoutKind::Volume ==> self.depth == 1
        &&& self.kind == LayoutKind::CubeMap ==> self.slots % 6 == 0
    }

    /// The number of bytes of one surface of level `level`.
    pub open spec fn level_len(self, level: nat) -> nat {
        self.pixel.surface_len(mip_dim(self.width, level), mip_dim(self.height, level))
    }

    /// The number of depth slices of level `level`.
    pub open spec fn level_depth(self, level: nat) -> nat {
        if self.kind == LayoutKind::Volume {
            mip_dim(self.depth, level)
        } else {
            1
        }
    }

    /// The number of surfaces of the levels before `level`, each level
    /// counted with its depth slices.
    pub open spec fn level_start(self, level: nat) -> nat
        decreases level,
    {
        if level == 0 {
            0
        } else {
            self.level_start((level - 1) as nat) + self.level_depth((level - 1) as nat)
        }
    }

    /// The number of surfaces.
    pub open spec fn surface_count(self) -> nat {
        if self.kind == LayoutKind::Volume {
            self.level_start(self.mipmaps)
        } else {
            self.slots * self.mipmaps
        }
    }

    /// The level of surface `k` of a volume, where `k` counts from the
    /// first surface of level `from`.
    pub open spec fn volume_level(self, k: nat, from: nat) -> nat
        decreases self.mipmaps - from,
    {
        if from + 1 >= self.mipmaps || k < self.level_depth(from) {
            from
        } else {
            self.volume_level((k - self.level_depth(from)) as nat, from + 1)
        }
    }

    /// The mipmap level of surface `k` in file order.
    pub open spec fn level_of(self, k: nat) -> nat {
        if self.kind == LayoutKind::Volume {
            self.volume_level(k, 0)
        } else {
            k % self.mipmaps
        }
    }

    /// The array slice or cube face of surface `k` in file order, or within
    /// a volume its depth slice.
    pub open spec fn slot_of(self, k: nat) -> nat {
        if self.kind == LayoutKind::Volume {
            (k - self.level_start(self.level_of(k))) as nat
        } else {
            k / self.mipmaps
        }
    }

    /// Surface `k` in file order.
    pub open spec fn surface(self, k: nat) -> SurfaceModel {
        let level = self.level_of(k);
        SurfaceModel {
            width: mip_dim(self.width, level),
            height: mip_dim(self.height, level),
            len: self.level_len(level),
            level,
            slot: self.slot_of(k),
        }
    }

    /// The offset of surface `k` from the start of the data section: the
    /// lengths of the surfaces before it, added up.
    pub open spec fn offset(self, k: nat) -> nat
        decreases k,
    {
        if k == 0 {
            0
        } else {
            self.offset((k - 1) as nat) + self.surface((k - 1) as nat).len
        }
    }

    /// The number of bytes of the data section.
    pub open spec fn data_len(self) -> nat {
        self.offset(self.surface_count())
    }

    /// The number of bytes of the levels before `level`, one surface each.
    pub open spec fn chain_len(self, level: nat) -> nat
        decreases level,
    {
        if level == 0 {
            0
        } else {
            self.chain_len((level - 1) as nat) + self.level_len((level - 1) as nat)
        }
    }

    /// The number of bytes of the levels before `level`, each level with
    /// its depth slices.
    pub open spec fn volume_len(self, level: nat) -> nat
        decreases level,
    {
        if level == 0 {
            0
        } else {
            self.volume_len((level - 1) as nat) + self.level_depth((level - 1) as nat)
                * self.level_len((level - 1) as nat)
        }
    }
}

/// An extent of at least one pixel stays between one pixel and itself at
/// every level.
pub proof fn lemma_mip_dim_bounds(d: nat, level: nat)
    requires
        d >= 1,
    ensures
        1 <= mip_dim(d, level) <= d,
    decreases level,
{
    if level > 0 {
        lemma_mip_dim_bounds(d, (level - 1) as nat);
    }
}

/// Offsets grow with the index.
pub proof fn lemma_offset_monotonic(m: LayoutModel, j: nat, k: nat)
    requires
        j <= k,
    ensures
        m.offset(j) <= m.offset(k),
    decreases k,
{
    if j < k {
        lemma_offset_monotonic(m, j, (k - 1) as nat);
    }
}

/// The starts of the levels of a volume grow with the level.
pub proof fn lemma_level_start_monotonic(m: LayoutModel, i: nat, j: nat)
    requires
        i <= j,
    ensures
        m.level_start(i) <= m.level_start(j),
    decreases j,
{
    if i < j {
        lemma_level_start_monotonic(m, i, (j - 1) as nat);
    }
}

/// In a texture or cube map, the surface after `k` is the next level of the
/// same slot, or after the last level the first level of the next slot.
pub proof fn lemma_texture_step(m: LayoutModel, k: nat)
    requires
        m.wf(),
        m.kind != LayoutKind::Volume,
    ensures
        m.level_of(k) < m.mipmaps,
        k == m.slot_of(k) * m.mipmaps + m.level_of(k),
        m.level_of(k) + 1 < m.mipmaps ==> m.level_of(k + 1) == m.level_of(k) + 1 && m.slot_of(
            k + 1,
        ) == m.slot_of(k),
        m.level_of(k) + 1 == m.mipmaps ==> m.level_of(k + 1) == 0 && m.slot_of(k + 1) == m.slot_of(
            k,
        ) + 1,
{
    let d = m.mipmaps as int;
    let q = (k as int) / d;
    let r = (k as int) % d;
    vstd::arithmetic::div_mod::lemma_fundamental_div_mod(k as int, d);
    vstd::arithmetic::div_mod::lemma_mod_bound(k as int, d);
    assert(d * q == q * d) by (nonlinear_arith);
    if r + 1 < d {
        vstd::arithmetic::div_mod::lemma_fundamental_div_mod_converse((k + 1) as int, d, q, r + 1);
    } else {
        assert((q + 1) * d + 0 == q * d + d) by (nonlinear_arith);
        vstd::arithmetic::div_mod::lemma_fundamental_div_mod_converse((k + 1) as int, d, q + 1, 0);
    }
}

/// In a texture or cube map, the surface at level `level` of slot `slot`
/// has the index `slot * mipmaps + level`.
pub proof fn lemma_texture_index(m: LayoutModel, slot: nat, level: nat)
    requires
        m.wf(),
        m.kind != LayoutKind::Volume,
        level < m.mipmaps,
    ensures
        m.level_of(slot * m.mipmaps + level) == level,
        m.slot_of(slot * m.mipmaps + level) == slot,
{
    vstd::arithmetic::div_mod::lemma_fundamental_div_mod_converse(
        (slot * m.mipmaps + level) as int,
        m.mipmaps as int,
        slot as int,
        level as int,
    );
}

/// In a texture or cube map, the offset of a surface is the length of the
/// whole chains of the slots before it, and of the levels before it in its
/// own slot.
pub proof fn lemma_texture_offset(m: LayoutModel, k: nat)
    requires
        m.wf(),
        m.kind != LayoutKind::Volume,
    ensures
        m.offset(k) == m.slot_of(k) * m.chain_len(m.mipmaps) + m.chain_len(m.level_of(k)),
    decreases k,
{
    let s = m.chain_len(m.mipmaps);
    if k == 0 {
        lemma_texture_index(m, 0, 0);
        assert(0 * m.mipmaps + 0 == 0) by (nonlinear_arith);
        assert(0 * s == 0) by (nonlinear_arith);
    } else {
        let j = (k - 1) as nat;
        lemma_texture_offset(m, j);
        lemma_texture_step(m, j);
        let q = m.slot_of(j);
        let r = m.level_of(j);
        if r + 1 == m.mipmaps {
            assert((q + 1) * s == q * s + s) by (nonlinear_arith);
        }
    }
}

/// In a volume, the surface at depth slice `slice` of level `level` is
/// found at that level, counting from the first surface of any level
/// `from` before it.
pub proof fn lemma_volume_level(m: LayoutModel, from: nat, level: nat, slice: nat)
    requires
        m.wf(),
        m.kind == LayoutKind::Volume,
        from <= level < m.mipmaps,
        slice < m.level_depth(level),
    ensures
        m.level_start(from) <= m.level_start(level),
        m.volume_level((m.level_start(level) - m.level_start(from) + slice) as nat, from) == level,
    decreases level - from,
{
    lemma_level_start_monotonic(m, from, level);
    if from < level {
        lemma_level_start_monotonic(m, from + 1, level);
        lemma_volume_level(m, from + 1, level, slice);
    }
}

/// In a volume, the surface at depth slice `slice` of level `level` has
/// the index `level_start(level) + slice`.
pub proof fn lemma_volume_index(m: LayoutModel, level: nat, slice: nat)
    requires
        m.wf(),
        m.kind == LayoutKind::Volume,
        level < m.mipmaps,
        slice < m.level_depth(level),
    ensures
        m.level_of(m.level_start(level) + slice) == level,
        m.slot_of(m.level_start(level) + slice) == slice,
{
    lemma_volume_level(m, 0, level, slice);
}

/// In a volume, the offset of a surface is the length of the levels before
/// it, and of the depth slices before it in its own level.
pub proof fn lemma_volume_offset(m: LayoutModel, level: nat, slice: nat)
    requires
        m.wf(),
        m.kind == LayoutKind::Volume,
        level < m.mipmaps,
        slice <= m.level_depth(level),
    ensures
        m.offset(m.level_start(level) + slice) == m.volume_len(level) + slice * m.level_len(level),
    decreases level, slice,
{
    let len = m.level_len(level);
    if slice == 0 {
        assert(0 * len == 0) by (nonlinear_arith);
        if level > 0 {
            lemma_volume_offset(m, (level - 1) as nat, m.level_depth((level - 1) as nat));
        }
    } else {
        let s = (slice - 1) as nat;
        lemma_volume_offset(m, level, s);
        lemma_volume_index(m, level, s);
        assert((s + 1) * len == s * len + len) by (nonlinear_arith);
    }
}

/// The number of surfaces before a level of a volume is at most the depth
/// of level 0 for each level.
pub proof fn lemma_level_start_bound(m: LayoutModel, level: nat)
    requires
        m.wf(),
    ensures
        m.level_start(level) <= level * m.depth,
    decreases level,
{
    if level > 0 {
        let p = (level - 1) as nat;
        lemma_level_start_bound(m, p);
        if m.kind == LayoutKind::Volume {
            lemma_mip_dim_bounds(m.depth, p);
        }
        assert((p + 1) * m.depth == p * m.depth + m.depth) by (nonlinear_arith);
    } else {
        assert(0 * m.depth == 0) by (nonlinear_arith);
    }
}

/// A layout whose counts fit in 32 bits has fewer than 2^40 surfaces.
pub proof fn lemma_count_bound(m: LayoutModel)
    requires
        m.wf(),
        m.depth <= u32::MAX,
        m.slots <= u32::MAX,
    ensures
        m.surface_count() <= 255 * 0x1_0000_0000,
{
    if m.kind == LayoutKind::Volume {
        lemma_level_start_bound(m, m.mipmaps);
        assert(m.mipmaps * m.depth <= 255 * 0x1_0000_0000) by (nonlinear_arith)
            requires
                m.mipmaps <= 255,
                m.depth <= 0x1_0000_0000,
        ;
    } else {
        assert(m.slots * m.mipmaps <= 0x1_0000_0000 * 255) by (nonlinear_arith)
            requires
                m.mipmaps <= 255,
                m.slots <= 0x1_0000_0000,
        ;
    }
}

/// In a volume, the level of a surface that is counted from the first
/// surface of level `from` is a level from `from` on, and the surface is
/// one of the depth slices of its level.
proof fn lemma_volume_level_range(m: LayoutModel, k: nat, from: nat)
    requires
        m.wf(),
        m.kind == LayoutKind::Volume,
        from < m.mipmaps,
        m.level_start(from) + k < m.level_start(m.mipmaps),
    ensures
        from <= m.volume_level(k, from) < m.mipmaps,
        m.level_start(m.volume_level(k, from)) <= m.level_start(from) + k < m.level_start(
            m.volume_level(k, from) + 1,
        ),
    decreases m.mipmaps - from,
{
    assert(m.level_start(from + 1) == m.level_start(from) + m.level_depth(from));
    if from + 1 >= m.mipmaps {
    } else if k < m.level_depth(from) {
    } else {
        lemma_volume_level_range(m, (k - m.level_depth(from)) as nat, from + 1);
    }
}

/// The surfaces of a layout come in file order without gap or overlap:
/// the first starts the data section, each ends where the next starts, and
/// the last ends the data section.
pub proof fn lemma_tightly_packed(m: LayoutModel, k: nat)
    requires
        k < m.surface_count(),
    ensures
        m.offset(0) == 0,
        m.offset(k) + m.surface(k).len == m.offset(k + 1),
        m.offset(k + 1) <= m.data_len(),
        m.offset(m.surface_count()) == m.data_len(),
{
    lemma_offset_monotonic(m, k + 1, m.surface_count());
}

/// The file order of a layout. A texture or cube map has a surface for
/// each slot and level, and surface `k` is level `k % mipmaps` of slot
/// `k / mipmaps`: each slot is followed by its mipmaps. A volume has a
/// surface for each depth slice of each level, and its levels follow each
/// other, each with all its depth slices.
pub proof fn lemma_file_order(m: LayoutModel, k: nat)
    requires
        m.wf(),
        k < m.surface_count(),
    ensures
        m.kind != LayoutKind::Volume ==> m.surface_count() == m.slots * m.mipmaps,
        m.kind == LayoutKind::Volume ==> m.surface_count() == m.level_start(m.mipmaps),
        m.surface(k).level < m.mipmaps,
        m.surface(k).width == mip_dim(m.width, m.surface(k).level),
        m.surface(k).height == mip_dim(m.height, m.surface(k).level),
        m.surface(k).len == m.pixel.surface_len(m.surface(k).width, m.surface(k).height),
        m.kind != LayoutKind::Volume ==> m.surface(k).slot < m.slots && k == m.surface(k).slot
            * m.mipmaps + m.surface(k).level,
        m.kind == LayoutKind::Volume ==> m.surface(k).slot < m.level_depth(m.surface(k).level)
            && k == m.level_start(m.surface(k).level) + m.surface(k).slot,
{
    if m.kind == LayoutKind::Volume {
        lemma_volume_level_range(m, k, 0);
        let l = m.level_of(k);
        assert(m.level_start(l + 1) == m.level_start(l) + m.level_depth(l));
    } else {
        lemma_texture_step(m, k);
        let q = m.slot_of(k);
        let r = m.level_of(k);
        if q >= m.slots {
            assert(q * m.mipmaps >= m.slots * m.mipmaps) by (nonlinear_arith)
                requires
                    q >= m.slots,
                    m.mipmaps >= 0,
            ;
        }
    }
}

/// The length of the data section in closed form: for a volume the length
/// of its levels, else the length of a chain of mipmaps for each slot.
pub proof fn lemma_data_len(m: LayoutModel)
    requires
        m.wf(),
    ensures
        m.kind == LayoutKind::Volume ==> m.data_len() == m.volume_len(m.mipmaps),
        m.kind != LayoutKind::Volume ==> m.data_len() == m.slots * m.chain_len(m.mipmaps),
{
    if m.kind == LayoutKind::Volume {
        let last = (m.mipmaps - 1) as nat;
        lemma_mip_dim_bounds(m.depth, last);
        lemma_volume_offset(m, last, m.level_depth(last));
    } else {
        lemma_texture_offset(m, m.surface_count());
        lemma_texture_index(m, m.slots, 0);
    }
}


impl Header {
    /// The array size that the header declares: that of its header
    /// extension, or 1 without one.
    pub open spec fn spec_array_size(self) -> u32 {
        match self.dx10 {
            Some(d) => d.array_size,
            None => 1,
        }
    }

    /// The header declares a volume: by its header extension or by `caps2`.
    pub open spec fn spec_is_volume(self) -> bool {
        (self.dx10 matches Some(d) && d.resource_dimension == ResourceDimension::Texture3D)
            || self.caps2 & DDSCAPS2_VOLUME != 0
    }

    /// The header declares a cube map without all six faces, or one whose
    /// faces are not 2D textures.
    pub open spec fn spec_bad_cube_map(self) -> bool {
        ||| self.caps2 & DDSCAPS2_CUBEMAP_ALL_FACES != DDSCAPS2_CUBEMAP_ALL_FACES
        ||| self.caps2 & DDSCAPS2_VOLUME != 0
        ||| (self.dx10 matches Some(d) && d.resource_dimension != ResourceDimension::Texture2D)
    }

    pub fn array_size(&self) -> (n: u32)
        ensures
            n == self.spec_array_size(),
    {
        match self.dx10 {
            Some(d) => d.array_size,
            None => 1,
        }
    }

    pub fn is_volume(&self) -> (r: bool)
        ensures
            r == self.spec_is_volume(),
    {
        let by_extension = match self.dx10 {
            Some(d) => d.resource_dimension == ResourceDimension::Texture3D,
            None => false,
        };
        by_extension || self.caps2 & DDSCAPS2_VOLUME != 0
    }

    pub fn is_bad_cube_map(&self) -> (r: bool)
        ensures
            r == self.spec_bad_cube_map(),
    {
        let not_2d = match self.dx10 {
            Some(d) => d.resource_dimension != ResourceDimension::Texture2D,
            None => false,
        };
        self.caps2 & DDSCAPS2_CUBEMAP_ALL_FACES != DDSCAPS2_CUBEMAP_ALL_FACES || self.caps2
            & DDSCAPS2_VOLUME != 0 || not_2d
    }
}

/// The layout of the given shape under `header`, once the shape is known:
/// the mipmap count is checked, then the total size.
pub open spec fn spec_layout_of_shape(
    header: Header,
    pixel: PixelInfo,
    kind: LayoutKind,
    slots: nat,
    depth: nat,
) -> Result<LayoutModel, LayoutError> {
    if header.mipmap_count > 255 {
        Err(LayoutError::TooManyMipMaps(header.mipmap_count))
    } else {
        let m = LayoutModel {
            kind,
            width: header.width as nat,
            height: header.height as nat,
            depth,
            slots,
            mipmaps: if header.mipmap_count == 0 {
                1
            } else {
                header.mipmap_count as nat
            },
            pixel,
        };
        if m.data_len() > u64::MAX {
            Err(LayoutError::DataLayoutTooBig)
        } else {
            Ok(m)
        }
    }
}

/// The layout that `header` describes for a format with the block geometry
/// `pixel`, or the first check that fails.
pub open spec fn spec_layout(header: Header, pixel: PixelInfo) -> Result<
    LayoutModel,
    LayoutError,
> {
    let array_size = header.spec_array_size();
    if header.width == 0 || header.height == 0 {
        Err(LayoutError::ZeroDimension)
    } else if header.caps2 & DDSCAPS2_CUBEMAP != 0 {
        if header.spec_bad_cube_map() {
            Err(LayoutError::InvalidCubeMapFaces)
        } else if 6 * array_size > u32::MAX {
            Err(LayoutError::ArraySizeTooBig(array_size))
        } else {
            spec_layout_of_shape(header, pixel, LayoutKind::CubeMap, (6 * array_size) as nat, 1)
        }
    } else if header.spec_is_volume() {
        if array_size != 1 {
            Err(LayoutError::ArraySizeTooBig(array_size))
        } else if header.flags & DDSD_DEPTH == 0 {
            Err(LayoutError::MissingDepth)
        } else if header.depth == 0 {
            Err(LayoutError::ZeroDimension)
        } else {
            spec_layout_of_shape(header, pixel, LayoutKind::Volume, 1, header.depth as nat)
        }
    } else {
        spec_layout_of_shape(header, pixel, LayoutKind::Texture, array_size as nat, 1)
    }
}

/// An extent at the next mipmap level.
pub fn half_dim(d: u32) -> (r: u32)
    ensures
        r == half(d as nat),
{
    if d / 2 == 0 {
        1
    } else {
        d / 2
    }
}

/// An extent at mipmap level `level`.
pub fn mip_dim_of(d: u32, level: u8) -> (r: u32)
    ensures
        r == mip_dim(d as nat, level as nat),
{
    let mut r: u32 = d;
    let mut l: u8 = 0;
    while l < level
        invariant
            l <= level,
            r == mip_dim(d as nat, l as nat),
        decreases level - l,
    {
        r = half_dim(r);
        l = l + 1;
    }
    r
}

/// A product of three factors is bounded by the product of their bounds.
proof fn lemma_product_bound(a: nat, b: nat, c: nat, x: nat, y: nat, z: nat)
    requires
        a <= x,
        b <= y,
        c <= z,
    ensures
        a * b * c <= x * y * z,
{
    assert(a * b <= x * y) by (nonlinear_arith)
        requires
            a <= x,
            b <= y,
    ;
    assert((a * b) * c <= (x * y) * z) by (nonlinear_arith)
        requires
            a * b <= x * y,
            c <= z,
    ;
}

impl PixelInfo {
    /// The number of bytes of a surface of the given extent.
    pub fn surface_bytes(&self, width: u32, height: u32) -> (r: u128)
        requires
            self.wf(),
        ensures
            r == self.surface_len(width as nat, height as nat),
            r <= 0x400_0000_0000_0000_0000,
    {
        let bx: u64 = (width as u64 + (self.block_width as u64 - 1)) / (self.block_width as u64);
        let by: u64 = (height as u64 + (self.block_height as u64 - 1)) / (self.block_height as u64);
        proof {
            lemma_product_bound(
                bx as nat,
                by as nat,
                self.bytes_per_block as nat,
                0x1_0000_0100,
                0x1_0000_0100,
                0x100,
            );
            assert(0x1_0000_0100 * 0x1_0000_0100 * 0x100 <= 0x400_0000_0000_0000_0000);
        }
        assert(bx * by <= 0x1_0000_0100 * 0x1_0000_0100) by (nonlinear_arith)
            requires
                bx <= 0x1_0000_0100,
                by <= 0x1_0000_0100,
        ;
        (bx as u128) * (by as u128) * (self.bytes_per_block as u128)
    }
}

/// The number of bytes of the data section of a layout, as far as 128 bits
/// count them.
fn total_len(
    kind: LayoutKind,
    width: u32,
    height: u32,
    depth: u32,
    slots: u32,
    mipmaps: u8,
    pixel: PixelInfo,
) -> (r: u128)
    requires
        (LayoutModel {
            kind,
            width: width as nat,
            height: height as nat,
            depth: depth as nat,
            slots: slots as nat,
            mipmaps: mipmaps as nat,
            pixel,
        }).wf(),
    ensures
        r == (LayoutModel {
            kind,
            width: width as nat,
            height: height as nat,
            depth: depth as nat,
            slots: slots as nat,
            mipmaps: mipmaps as nat,
            pixel,
        }).data_len(),
{
    let ghost m = LayoutModel {
        kind,
        width: width as nat,
        height: height as nat,
        depth: depth as nat,
        slots: slots as nat,
        mipmaps: mipmaps as nat,
        pixel,
    };
    let volume = kind == LayoutKind::Volume;
    let mut w: u32 = width;
    let mut h: u32 = height;
    let mut d: u32 = depth;
    let mut level: u8 = 0;
    let mut acc: u128 = 0;
    while level < mipmaps
        invariant
            m.wf(),
            m == (LayoutModel {
                kind,
                width: width as nat,
                height: height as nat,
                depth: depth as nat,
                slots: slots as nat,
                mipmaps: mipmaps as nat,
                pixel,
            }),
            volume == (kind == LayoutKind::Volume),
            level <= mipmaps,
            w == mip_dim(width as nat, level as nat),
            h == mip_dim(height as nat, level as nat),
            d == mip_dim(depth as nat, level as nat),
            volume ==> acc == m.volume_len(level as nat),
            !volume ==> acc == m.chain_len(level as nat),
            acc <= level * 0x400_0000_0000_0000_0000_0000_0000,
            !volume ==> acc <= level * 0x400_0000_0000_0000_0000,
        decreases mipmaps - level,
    {
        let len: u128 = pixel.surface_bytes(w, h);
        let count: u128 = if volume {
            d as u128
        } else {
            1
        };
        assert(count * len <= 0x1_0000_0000 * 0x400_0000_0000_0000_0000) by (nonlinear_arith)
            requires
                count <= 0x1_0000_0000,
                len <= 0x400_0000_0000_0000_0000,
        ;
        assert(0x1_0000_0000 * 0x400_0000_0000_0000_0000 == 0x400_0000_0000_0000_0000_0000_0000);
        assert(!volume ==> count * len == len) by (nonlinear_arith)
            requires
                !volume ==> count == 1,
        ;
        acc = acc + count * len;
        w = half_dim(w);
        h = half_dim(h);
        d = half_dim(d);
        level = level + 1;
    }
    proof {
        lemma_data_len(m);
    }
    if volume {
        acc
    } else {
        assert(slots * acc <= 0x1_0000_0000 * (255 * 0x400_0000_0000_0000_0000)) by (nonlinear_arith)
            requires
                slots <= 0x1_0000_0000,
                acc <= 255 * 0x400_0000_0000_0000_0000,
        ;
        (slots as u128) * acc
    }
}

/// One surface of a layout: its extent, and where it lies in the data
/// section.
#[derive(Debug, Clone, Copy, PartialEq, Eq, Structural)]
pub struct SurfaceDescriptor {
    pub size: Size,
    /// The offset of the surface from the start of the data section.
    pub offset: u64,
    /// The number of bytes of the surface.
    pub byte_length: u64,
    /// The mipmap level.
    pub level: u8,
    /// The array slice or cube face, or within a volume the depth slice.
    pub slot: u32,
}

impl SurfaceDescriptor {
    /// The descriptor is that of surface `k` of the layout `m`.
    pub open spec fn describes(self, m: LayoutModel, k: nat) -> bool {
        let s = m.surface(k);
        &&& self.size.width == s.width
        &&& self.size.height == s.height
        &&& self.offset == m.offset(k)
        &&& self.byte_length == s.len
        &&& self.level == s.level
        &&& self.slot == s.slot
    }
}

/// The layout of the data section of a file.
#[derive(Debug, Clone, Copy, PartialEq, Eq)]
pub struct DataLayout {
    kind: LayoutKind,
    size: Size,
    depth: u32,
    slots: u32,
    mipmaps: u8,
    pixel: PixelInfo,
    data_len: u64,
}

impl View for DataLayout {
    type V = LayoutModel;

    closed spec fn view(&self) -> LayoutModel {
        LayoutModel {
            kind: self.kind,
            width: self.size.width as nat,
            height: self.size.height as nat,
            depth: self.depth as nat,
            slots: self.slots as nat,
            mipmaps: self.mipmaps as nat,
            pixel: self.pixel,
        }
    }
}

impl DataLayout {
    /// What holds of every layout: it is well formed, and it knows the
    /// length of its data section.
    #[verifier::type_invariant]
    pub closed spec fn inv(self) -> bool {
        self@.wf() && self.data_len == self@.data_len()
    }

    /// Every layout is well formed, has extents and counts that its
    /// accessors can return, and a data section whose length 64 bits count.
    pub proof fn lemma_valid(self)
        requires
            self.inv(),
        ensures
            self@.wf(),
            self@.width <= u32::MAX,
            self@.height <= u32::MAX,
            self@.depth <= u32::MAX,
            self@.slots <= u32::MAX,
            self@.data_len() <= u64::MAX,
    {
    }

    /// Computes the layout that `header` describes for a format with the
    /// block geometry `pixel`.
    pub fn from_header_with(header: &Header, pixel: PixelInfo) -> (r: Result<
        DataLayout,
        LayoutError,
    >)
        requires
            pixel.wf(),
        ensures
            match r {
                Ok(layout) => spec_layout(*header, pixel) == Ok::<LayoutModel, LayoutError>(
                    layout@,
                ),
                Err(e) => spec_layout(*header, pixel) == Err::<LayoutModel, LayoutError>(e),
            },
    {
        let array_size: u32 = header.array_size();
        if header.width == 0 || header.height == 0 {
            return Err(LayoutError::ZeroDimension);
        }
        let kind: LayoutKind;
        let slots: u32;
        let depth: u32;
        if header.caps2 & DDSCAPS2_CUBEMAP != 0 {
            if header.is_bad_cube_map() {
                return Err(LayoutError::InvalidCubeMapFaces);
            }
            if array_size > u32::MAX / 6 {
                return Err(LayoutError::ArraySizeTooBig(array_size));
            }
            kind = LayoutKind::CubeMap;
            slots = 6 * array_size;
            depth = 1;
        } else if header.is_volume() {
            if array_size != 1 {
                return Err(LayoutError::ArraySizeTooBig(array_size));
            }
            if header.flags & DDSD_DEPTH == 0 {
                return Err(LayoutError::MissingDepth);
            }
            if header.depth == 0 {
                return Err(LayoutError::ZeroDimension);
            }
            kind = LayoutKind::Volume;
            slots = 1;
            depth = header.depth;
        } else {
            kind = LayoutKind::Texture;
            slots = array_size;
            depth = 1;
        }
        if header.mipmap_count > 255 {
            return Err(LayoutError::TooManyMipMaps(header.mipmap_count));
        }
        let mipmaps: u8 = if header.mipmap_count == 0 {
            1
        } else {
            header.mipmap_count as u8
        };
        let total: u128 = total_len(kind, header.width, header.height, depth, slots, mipmaps, pixel);
        if total > u64::MAX as u128 {
            return Err(LayoutError::DataLayoutTooBig);
        }
        Ok(
            DataLayout {
                kind,
                size: Size { width: header.width, height: header.height },
                depth,
                slots,
                mipmaps,
                pixel,
                data_len: total as u64,
            },
        )
    }

    /// The shape of the data section.
    pub fn kind(&self) -> (r: LayoutKind)
        ensures
            r == self@.kind,
    {
        self.kind
    }

    /// The layout is that of a volume.
    pub fn is_volume(&self) -> (r: bool)
        ensures
            r == (self@.kind == LayoutKind::Volume),
    {
        self.kind == LayoutKind::Volume
    }

    /// The extent of level 0: of the texture, of each cube face, or of each
    /// depth slice of a volume.
    pub fn main_size(&self) -> (r: Size)
        ensures
            r.width == self@.width,
            r.height == self@.height,
    {
        self.size
    }

    /// The number of depth slices of level 0.
    pub fn depth(&self) -> (r: u32)
        ensures
            r == self@.depth,
    {
        self.depth
    }

    /// The number of array slices or cube faces.
    pub fn slots(&self) -> (r: u32)
        ensures
            r == self@.slots,
    {
        self.slots
    }

    /// The number of mipmap levels, level 0 included.
    pub fn mipmaps(&self) -> (r: u8)
        ensures
            r == self@.mipmaps,
            r >= 1,
    {
        proof {
            use_type_invariant(self);
        }
        self.mipmaps
    }

    /// The block geometry of the pixel format.
    pub fn pixel_info(&self) -> (r: PixelInfo)
        ensures
            r == self@.pixel,
            r.wf(),
    {
        proof {
            use_type_invariant(self);
        }
        self.pixel
    }

    /// The number of surfaces.
    pub fn surface_count(&self) -> (r: u64)
        ensures
            r == self@.surface_count(),
    {
        proof {
            use_type_invariant(self);
            lemma_count_bound(self@);
        }
        if self.kind == LayoutKind::Volume {
            let ghost m = self@;
            let mut level: u8 = 0;
            let mut d: u32 = self.depth;
            let mut count: u64 = 0;
            while level < self.mipmaps
                invariant
                    m == self@,
                    m.wf(),
                    m.kind == LayoutKind::Volume,
                    m.depth <= u32::MAX,
                    level <= self.mipmaps,
                    d == mip_dim(m.depth, level as nat),
                    count == m.level_start(level as nat),
                decreases self.mipmaps - level,
            {
                proof {
                    lemma_level_start_bound(m, (level + 1) as nat);
                    assert((level + 1) * m.depth <= 255 * 0x1_0000_0000) by (nonlinear_arith)
                        requires
                            level + 1 <= 255,
                            m.depth <= 0x1_0000_0000,
                    ;
                }
                count = count + d as u64;
                d = half_dim(d);
                level = level + 1;
            }
            count
        } else {
            assert(self.slots * self.mipmaps <= 0x1_0000_0000 * 255) by (nonlinear_arith)
                requires
                    self.slots <= 0x1_0000_0000,
                    self.mipmaps <= 255,
            ;
            self.slots as u64 * self.mipmaps as u64
        }
    }

    /// Surface `index` in file order: its extent, where it lies in the data
    /// section, and which level of which slot it is. `None` where the
    /// layout has no such surface.
    pub fn surface(&self, index: u64) -> (r: Option<SurfaceDescriptor>)
        ensures
            match r {
                Some(d) => index < self@.surface_count() && d.describes(self@, index as nat),
                None => index >= self@.surface_count(),
            },
    {
        proof {
            use_type_invariant(self);
            lemma_count_bound(self@);
        }
        let count = self.surface_count();
        if index >= count {
            return None;
        }
        let ghost m = self@;
        let ghost k = index as nat;
        proof {
            lemma_file_order(m, k);
            lemma_offset_monotonic(m, k + 1, m.surface_count());
        }
        let volume = self.kind == LayoutKind::Volume;
        // the level of the surface, and in a volume the surfaces before the level
        let mut level: u8 = if volume {
            0
        } else {
            (index % self.mipmaps as u64) as u8
        };
        let slot: u64 = if volume {
            0
        } else {
            index / self.mipmaps as u64
        };
        let mut w: u32 = self.size.width;
        let mut h: u32 = self.size.height;
        let mut d: u32 = self.depth;
        let mut l: u8 = 0;
        let mut start: u64 = 0;
        let mut before: u128 = 0;
        let mut more: bool = if volume {
            index >= d as u64
        } else {
            0 < level
        };
        while more
            invariant
                more ==> l < self.mipmaps,
                more == (l < self.mipmaps && if volume {
                    index - start >= d
                } else {
                    l < level
                }),
                m == self@,
                m.wf(),
                m.depth <= u32::MAX,
                volume == (m.kind == LayoutKind::Volume),
                k == index,
                k < m.surface_count(),
                l <= self.mipmaps,
                w == mip_dim(m.width, l as nat),
                h == mip_dim(m.height, l as nat),
                d == mip_dim(m.depth, l as nat),
                !volume ==> level == m.level_of(k) && l <= level && before == m.chain_len(l as nat)
                    && start == 0,
                volume ==> start == m.level_start(l as nat) && start <= index && before
                    == m.volume_len(l as nat) && l <= m.level_of(k),
                before <= l * 0x400_0000_0000_0000_0000_0000_0000,
            decreases self.mipmaps - l,
        {
            let len: u128 = self.pixel.surface_bytes(w, h);
            let slices: u128 = if volume {
                d as u128
            } else {
                1
            };
            assert(slices * len <= 0x1_0000_0000 * 0x400_0000_0000_0000_0000) by (nonlinear_arith)
                requires
                    slices <= 0x1_0000_0000,
                    len <= 0x400_0000_0000_0000_0000,
            ;
            assert(!volume ==> slices * len == len) by (nonlinear_arith)
                requires
                    !volume ==> slices == 1,
            ;
            proof {
                if volume {
                    // the surface lies at a later level: this level ends before it
                    assert(m.level_start((l + 1) as nat) == m.level_start(l as nat)
                        + m.level_depth(l as nat));
                    let found = m.level_of(k);
                    lemma_file_order(m, k);
                    if l as nat >= found {
                        assert(m.level_start(found + 1) == m.level_start(found) + m.level_depth(
                            found,
                        ));
                        lemma_level_start_monotonic(m, found + 1, (l + 1) as nat);
                        assert(false);
                    }
                }
            }
            before = before + slices * len;
            if volume {
                start = start + d as u64;
            }
            w = half_dim(w);
            h = half_dim(h);
            d = half_dim(d);
            l = l + 1;
            more = l < self.mipmaps && if volume {
                index - start >= d as u64
            } else {
                l < level
            };
        }
        proof {
            if volume {
                lemma_level_start_monotonic(m, l as nat, m.level_of(k));
                if (l as nat) < m.level_of(k) {
                    assert(m.level_start((l + 1) as nat) == m.level_start(l as nat)
                        + m.level_depth(l as nat));
                    lemma_level_start_monotonic(m, (l + 1) as nat, m.level_of(k));
                }
                assert(l == m.level_of(k));
                lemma_volume_offset(m, l as nat, (index - start) as nat);
            } else {
                lemma_texture_offset(m, k);
            }
        }
        let len: u128 = self.pixel.surface_bytes(w, h);
        let inner: u128 = if volume {
            let slice: u128 = (index - start) as u128;
            assert(slice * len <= 0x1_0000_0000 * 0x400_0000_0000_0000_0000) by (nonlinear_arith)
                requires
                    slice <= 0x1_0000_0000,
                    len <= 0x400_0000_0000_0000_0000,
            ;
            slice * len
        } else {
            // the chains of the slots before: the length of a chain is the rest of this one
            let mut chain: u128 = before;
            let mut cw: u32 = w;
            let mut ch: u32 = h;
            let mut cl: u8 = l;
            while cl < self.mipmaps
                invariant
                    m == self@,
                    m.wf(),
                    cl <= self.mipmaps,
                    cw == mip_dim(m.width, cl as nat),
                    ch == mip_dim(m.height, cl as nat),
                    chain == m.chain_len(cl as nat),
                    chain <= cl * 0x400_0000_0000_0000_0000,
                decreases self.mipmaps - cl,
            {
                let step: u128 = self.pixel.surface_bytes(cw, ch);
                chain = chain + step;
                cw = half_dim(cw);
                ch = half_dim(ch);
                cl = cl + 1;
            }
            assert(slot * chain <= 0x1_0000_0000 * (255 * 0x400_0000_0000_0000_0000))
                by (nonlinear_arith)
                requires
                    slot <= 0x1_0000_0000,
                    chain <= 255 * 0x400_0000_0000_0000_0000,
            ;
            slot as u128 * chain
        };
        let offset: u128 = before + inner;
        Some(
            SurfaceDescriptor {
                size: Size { width: w, height: h },
                offset: offset as u64,
                byte_length: len as u64,
                level: l,
                slot: if volume {
                    (index - start) as u32
                } else {
                    slot as u32
                },
            },
        )
    }

    /// The number of bytes of the data section: the lengths of all
    /// surfaces, added up.
    pub fn data_len(&self) -> (r: u64)
        ensures
            r == self@.data_len(),
    {
        proof {
            use_type_invariant(self);
        }
        self.data_len
    }
}

} // verus!
