//! The surface iterator: a cursor that walks the surfaces of a layout in
//! file order.

use vstd::prelude::*;

use crate::error::DecodeError;
use crate::layout::{
    half_dim, lemma_count_bound, lemma_level_start_monotonic, lemma_mip_dim_bounds,
    lemma_offset_monotonic, lemma_texture_index, lemma_texture_step, lemma_volume_index, mip_dim,
    mip_dim_of, DataLayout, LayoutKind, LayoutModel, Size,
};

verus! {

/// Whether a surface is the base of its mipmap chain.
#[derive(Debug, Clone, Copy, PartialEq, Eq, Structural)]
pub enum LevelKind {
    /// Mipmap level 0.
    Mip0,
    /// A mipmap level above 0.
    MipN,
}

/// What the slot of a surface counts.
#[derive(Debug, Clone, Copy, PartialEq, Eq, Structural)]
pub enum SlotKind {
    ArraySlice,
    CubeFace,
    DepthSlice,
}

/// What the iterator says of the surface that comes next.
#[derive(Debug, Clone, Copy, PartialEq, Eq, Structural)]
pub struct SurfaceInfo {
    pub size: Size,
    /// The number of bytes of the surface in the file.
    pub byte_length: u64,
    /// The mipmap level.
    pub level: u8,
    /// The array slice or cube face, or within a volume the depth slice.
    pub slot: u32,
    pub slot_kind: SlotKind,
}

/// What the slots of a layout of the given shape count.
pub open spec fn slot_kind_of(kind: LayoutKind) -> SlotKind {
    match kind {
        LayoutKind::Texture => SlotKind::ArraySlice,
        LayoutKind::CubeMap => SlotKind::CubeFace,
        LayoutKind::Volume => SlotKind::DepthSlice,
    }
}

impl SurfaceInfo {
    /// The info is that of surface `k` of the layout `m`.
    pub open spec fn describes(self, m: LayoutModel, k: nat) -> bool {
        let s = m.surface(k);
        &&& self.size.width == s.width
        &&& self.size.height == s.height
        &&& self.byte_length == s.len
        &&& self.level == s.level
        &&& self.slot == s.slot
        &&& self.slot_kind == slot_kind_of(m.kind)
    }

    /// The extent of the surface.
    pub fn size(&self) -> (r: Size)
        ensures
            r == self.size,
    {
        self.size
    }

    /// The number of bytes of the surface in the file.
    pub fn data_len(&self) -> (r: u64)
        ensures
            r == self.byte_length,
    {
        self.byte_length
    }

    /// The surface is a mipmap: its level is above 0.
    pub fn is_mipmap(&self) -> (r: bool)
        ensures
            r == (self.level > 0),
    {
        self.level > 0
    }

    pub fn level_kind(&self) -> (r: LevelKind)
        ensures
            r == (if self.level == 0 {
                LevelKind::Mip0
            } else {
                LevelKind::MipN
            }),
    {
        if self.level == 0 {
            LevelKind::Mip0
        } else {
            LevelKind::MipN
        }
    }
}

impl LayoutModel {
    /// The index that advancing reaches from `k` when it goes on until the
    /// next surface of level 0, or the end.
    pub open spec fn next_main(self, k: nat) -> nat
        decreases self.surface_count() - k,
    {
        if k >= self.surface_count() || self.level_of(k) == 0 {
            k
        } else {
            self.next_main(k + 1)
        }
    }

    /// Index `k` is the end, or the first depth slice of a level.
    pub open spec fn at_level_start(self, k: nat) -> bool {
        k >= self.surface_count() || self.slot_of(k) == 0
    }
}

/// The model of an iterator: a layout and the index of the surface that
/// comes next, or the number of surfaces when none is left.
pub struct IterModel {
    pub layout: LayoutModel,
    pub index: nat,
}

impl IterModel {
    /// No surface is left.
    pub open spec fn exhausted(self) -> bool {
        self.index >= self.layout.surface_count()
    }

    /// The offset of the next surface from the start of the data section.
    pub open spec fn offset(self) -> nat {
        self.layout.offset(self.index)
    }
}

/// In a volume, advancing from a surface above level 0 until the next
/// surface of level 0 reaches the end.
pub proof fn lemma_volume_next_main(m: LayoutModel, level: nat, slice: nat)
    requires
        m.wf(),
        m.kind == LayoutKind::Volume,
        1 <= level < m.mipmaps,
        slice < m.level_depth(level),
    ensures
        m.next_main(m.level_start(level) + slice) == m.surface_count(),
    decreases m.mipmaps - level, m.level_depth(level) - slice,
{
    let k = m.level_start(level) + slice;
    lemma_volume_index(m, level, slice);
    lemma_level_start_monotonic(m, level + 1, m.mipmaps);
    assert(m.level_start(level + 1) == m.level_start(level) + m.level_depth(level));
    assert(k < m.surface_count());
    assert(m.next_main(k) == m.next_main(k + 1));
    if slice + 1 < m.level_depth(level) {
        lemma_volume_next_main(m, level, slice + 1);
    } else if level + 1 < m.mipmaps {
        lemma_mip_dim_bounds(m.depth, level + 1);
        lemma_volume_next_main(m, level + 1, 0);
        assert(k + 1 == m.level_start(level + 1) + 0);
    } else {
        assert(k + 1 == m.surface_count());
    }
}

/// In a texture or cube map, advancing from a mipmap until the next
/// surface of level 0 reaches the first surface of the next slot, or the
/// end after the last slot; from a surface of level 0, and from the end,
/// it goes nowhere.
pub proof fn lemma_texture_next_main(m: LayoutModel, k: nat)
    requires
        m.wf(),
        m.kind != LayoutKind::Volume,
        k <= m.surface_count(),
    ensures
        m.next_main(k) == if k == m.surface_count() || m.level_of(k) == 0 {
            k
        } else {
            (m.slot_of(k) + 1) * m.mipmaps
        },
        k <= m.next_main(k) <= m.surface_count(),
    decreases m.surface_count() - k,
{
    if k < m.surface_count() && m.level_of(k) != 0 {
        lemma_texture_step(m, k);
        let q = m.slot_of(k);
        let r = m.level_of(k);
        if q >= m.slots {
            assert(q * m.mipmaps >= m.slots * m.mipmaps) by (nonlinear_arith)
                requires
                    q >= m.slots,
                    m.mipmaps >= 0,
            ;
        }
        assert((q + 1) * m.mipmaps <= m.slots * m.mipmaps) by (nonlinear_arith)
            requires
                q + 1 <= m.slots,
                m.mipmaps >= 0,
        ;
        assert((q + 1) * m.mipmaps == q * m.mipmaps + m.mipmaps) by (nonlinear_arith);
        lemma_texture_next_main(m, k + 1);
    }
}

/// A cursor over the surfaces of a layout.
#[derive(Debug, Clone, Copy, PartialEq, Eq)]
pub struct SurfaceIterator {
    layout: DataLayout,
    index: u64,
    offset: u64,
    slot: u32,
    level: u8,
    slice: u32,
    width: u32,
    height: u32,
    depth: u32,
}

impl View for SurfaceIterator {
    type V = IterModel;

    closed spec fn view(&self) -> IterModel {
        IterModel { layout: self.layout@, index: self.index as nat }
    }
}

impl SurfaceIterator {
    /// What holds of every iterator: its counters agree with its index,
    /// and its index is at most the number of surfaces.
    #[verifier::type_invariant]
    pub closed spec fn inv(self) -> bool {
        let m = self.layout@;
        &&& self.layout.inv()
        &&& self.index <= m.surface_count()
        &&& self.offset == m.offset(self.index as nat)
        &&& self.width == mip_dim(m.width, self.level as nat)
        &&& self.height == mip_dim(m.height, self.level as nat)
        &&& self.depth == mip_dim(m.depth, self.level as nat)
        &&& if m.kind == LayoutKind::Volume {
            &&& self.slot == 0
            &&& self.level <= m.mipmaps
            &&& self.level < m.mipmaps ==> self.slice < self.depth && self.index == m.level_start(
                self.level as nat,
            ) + self.slice
            &&& self.level == m.mipmaps ==> self.slice == 0 && self.index == m.surface_count()
        } else {
            &&& self.slice == 0
            &&& self.level < m.mipmaps
            &&& self.slot <= m.slots
            &&& self.slot == m.slots ==> self.level == 0
            &&& self.index == self.slot * m.mipmaps + self.level
        }
    }

    /// Every iterator has a well-formed layout, and an index that is at
    /// most the number of surfaces.
    pub proof fn lemma_valid(self)
        requires
            self.inv(),
        ensures
            self@.layout.wf(),
            self@.index <= self@.layout.surface_count(),
            self@.layout.data_len() <= u64::MAX,
    {
        self.layout.lemma_valid();
    }

    /// An iterator at the first surface of `layout`.
    pub fn new(layout: DataLayout) -> (it: Self)
        ensures
            it@.layout == layout@,
            it@.index == 0,
    {
        proof {
            use_type_invariant(&layout);
            layout.lemma_valid();
            assert(0 * layout@.mipmaps + 0 == 0) by (nonlinear_arith);
        }
        let size = layout.main_size();
        SurfaceIterator {
            layout,
            index: 0,
            offset: 0,
            slot: 0,
            level: 0,
            slice: 0,
            width: size.width,
            height: size.height,
            depth: layout.depth(),
        }
    }

    /// The layout that the iterator walks.
    pub fn layout(&self) -> (r: DataLayout)
        ensures
            r@ == self@.layout,
    {
        self.layout
    }

    /// The index of the next surface in file order.
    pub fn index(&self) -> (r: u64)
        ensures
            r == self@.index,
    {
        self.index
    }

    /// The offset of the next surface from the start of the data section:
    /// the number of bytes of the surfaces that have been passed.
    pub fn offset(&self) -> (r: u64)
        ensures
            r == self@.offset(),
    {
        proof {
            use_type_invariant(self);
        }
        self.offset
    }

    /// No surface is left.
    pub fn is_exhausted(&self) -> (r: bool)
        ensures
            r == self@.exhausted(),
    {
        proof {
            use_type_invariant(self);
            self.layout.lemma_valid();
        }
        if self.layout.is_volume() {
            proof {
                let m = self.layout@;
                if self.level < m.mipmaps {
                    lemma_level_start_monotonic(m, (self.level + 1) as nat, m.mipmaps);
                    assert(m.level_start((self.level + 1) as nat) == m.level_start(
                        self.level as nat,
                    ) + m.level_depth(self.level as nat));
                }
            }
            self.level == self.layout.mipmaps()
        } else {
            proof {
                let m = self.layout@;
                if self.slot < m.slots {
                    assert(self.slot * m.mipmaps + self.level < m.slots * m.mipmaps)
                        by (nonlinear_arith)
                        requires
                            self.slot < m.slots,
                            self.level < m.mipmaps,
                    ;
                }
            }
            self.slot == self.layout.slots()
        }
    }

    /// The surface that comes next, or `None` when no surface is left.
    pub fn current(&self) -> (r: Option<SurfaceInfo>)
        ensures
            match r {
                Some(info) => !self@.exhausted() && info.describes(self@.layout, self@.index),
                None => self@.exhausted(),
            },
    {
        if self.is_exhausted() {
            return None;
        }
        proof {
            use_type_invariant(self);
            self.layout.lemma_valid();
            let m = self.layout@;
            let k = self.index as nat;
            if m.kind == LayoutKind::Volume {
                lemma_volume_index(m, self.level as nat, self.slice as nat);
            } else {
                lemma_texture_index(m, self.slot as nat, self.level as nat);
            }
            lemma_offset_monotonic(m, k + 1, m.surface_count());
        }
        let volume = self.layout.is_volume();
        let len: u128 = self.layout.pixel_info().surface_bytes(self.width, self.height);
        let slot_kind = match self.layout.kind() {
            LayoutKind::Texture => SlotKind::ArraySlice,
            LayoutKind::CubeMap => SlotKind::CubeFace,
            LayoutKind::Volume => SlotKind::DepthSlice,
        };
        Some(
            SurfaceInfo {
                size: Size { width: self.width, height: self.height },
                byte_length: len as u64,
                level: self.level,
                slot: if volume {
                    self.slice
                } else {
                    self.slot
                },
                slot_kind,
            },
        )
    }

    /// Moves to the next surface. Does nothing when no surface is left.
    pub fn advance(&mut self)
        ensures
            final(self)@.layout == old(self)@.layout,
            final(self)@.index == if old(self)@.exhausted() {
                old(self)@.index
            } else {
                old(self)@.index + 1
            },
    {
        let info = match self.current() {
            None => {
                return ;
            },
            Some(info) => info,
        };
        proof {
            use_type_invariant(&*self);
            self.layout.lemma_valid();
            let m = self.layout@;
            let k = self.index as nat;
            lemma_count_bound(m);
            lemma_offset_monotonic(m, k + 1, m.surface_count());
            if m.kind == LayoutKind::Volume {
                lemma_level_start_monotonic(m, (self.level + 1) as nat, m.mipmaps);
            } else {
                assert((self.slot + 1) * m.mipmaps == self.slot * m.mipmaps + m.mipmaps)
                    by (nonlinear_arith);
                lemma_mip_dim_bounds(m.depth, self.level as nat);
                lemma_mip_dim_bounds(m.depth, (self.level + 1) as nat);
            }
        }
        let mipmaps: u8 = self.layout.mipmaps();
        let layout = self.layout;
        let size = layout.main_size();
        let index: u64 = self.index + 1;
        let offset: u64 = self.offset + info.byte_length;
        let mut slot: u32 = self.slot;
        let mut level: u8 = self.level;
        let mut slice: u32 = self.slice;
        let mut width: u32 = self.width;
        let mut height: u32 = self.height;
        let mut depth: u32 = self.depth;
        if layout.is_volume() {
            if slice + 1 < depth {
                slice = slice + 1;
            } else {
                slice = 0;
                level = level + 1;
                width = half_dim(width);
                height = half_dim(height);
                depth = half_dim(depth);
                proof {
                    lemma_mip_dim_bounds(layout@.depth, level as nat);
                    assert(layout@.level_start(level as nat) == layout@.level_start(
                        (level - 1) as nat,
                    ) + layout@.level_depth((level - 1) as nat));
                }
            }
        } else {
            if level + 1 < mipmaps {
                level = level + 1;
                width = half_dim(width);
                height = half_dim(height);
            } else {
                level = 0;
                slot = slot + 1;
                width = size.width;
                height = size.height;
            }
        }
        *self = SurfaceIterator { layout, index, offset, slot, level, slice, width, height, depth };
    }

    /// Moves on to the next surface of level 0, or to the end, and says how
    /// many bytes of the data section were passed. Does nothing at a
    /// surface of level 0.
    ///
    /// Within a level of a volume the iterator stays where it is and the
    /// call fails: from a volume, mipmaps are skipped only at the first
    /// depth slice of a level.
    pub fn skip_mipmaps(&mut self) -> (r: Result<u64, DecodeError>)
        ensures
            final(self)@.layout == old(self)@.layout,
            match r {
                Ok(bytes) => {
                    &&& old(self)@.layout.kind == LayoutKind::Volume
                        ==> old(self)@.layout.at_level_start(old(self)@.index)
                    &&& final(self)@.index == old(self)@.layout.next_main(old(self)@.index)
                    &&& bytes == final(self)@.offset() - old(self)@.offset()
                },
                Err(e) => {
                    &&& e == DecodeError::CannotSkipMipmapsInVolume
                    &&& old(self)@.layout.kind == LayoutKind::Volume
                    &&& !old(self)@.layout.at_level_start(old(self)@.index)
                    &&& final(self)@ == old(self)@
                },
            },
    {
        let ghost m = self.layout@;
        let ghost k0 = self.index as nat;
        proof {
            use_type_invariant(&*self);
            self.layout.lemma_valid();
        }
        if self.is_exhausted() {
            return Ok(0);
        }
        if self.layout.is_volume() {
            proof {
                lemma_volume_index(m, self.level as nat, self.slice as nat);
            }
            if self.slice != 0 {
                return Err(DecodeError::CannotSkipMipmapsInVolume);
            }
            if self.level == 0 {
                return Ok(0);
            }
            let layout = self.layout;
            let mipmaps: u8 = layout.mipmaps();
            let total: u64 = layout.data_len();
            let count: u64 = layout.surface_count();
            proof {
                lemma_offset_monotonic(m, k0, m.surface_count());
                lemma_volume_next_main(m, self.level as nat, 0);
            }
            let bytes: u64 = total - self.offset;
            let size = layout.main_size();
            *self = SurfaceIterator {
                layout,
                index: count,
                offset: total,
                slot: 0,
                level: mipmaps,
                slice: 0,
                width: mip_dim_of(size.width, mipmaps),
                height: mip_dim_of(size.height, mipmaps),
                depth: mip_dim_of(layout.depth(), mipmaps),
            };
            Ok(bytes)
        } else {
            let start: u64 = self.offset;
            proof {
                lemma_texture_index(m, self.slot as nat, self.level as nat);
            }
            while self.level != 0
                invariant
                    m.wf(),
                    m.kind != LayoutKind::Volume,
                    self@.layout == m,
                    self.index <= m.surface_count(),
                    k0 <= self.index,
                    self.offset == m.offset(self.index as nat),
                    start == m.offset(k0),
                    m.next_main(self.index as nat) == m.next_main(k0),
                    self.level != 0 ==> self.index < m.surface_count() && m.level_of(
                        self.index as nat,
                    ) == self.level,
                    self.level == 0 ==> self.index >= m.surface_count() || m.level_of(
                        self.index as nat,
                    ) == 0,
                decreases m.surface_count() - self.index,
            {
                self.advance();
                proof {
                    use_type_invariant(&*self);
                    if self.slot < m.slots {
                        lemma_texture_index(m, self.slot as nat, self.level as nat);
                        assert(self.slot * m.mipmaps + self.level < m.slots * m.mipmaps)
                            by (nonlinear_arith)
                            requires
                                self.slot < m.slots,
                                self.level < m.mipmaps,
                        ;
                    }
                }
            }
            proof {
                lemma_offset_monotonic(m, k0, self.index as nat);
            }
            Ok(self.offset - start)
        }
    }
}

} // verus!
