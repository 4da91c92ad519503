//! The decoder: what to read next from a file, and what is refused.
//!
//! The decoder moves no bytes. Each operation checks the request against
//! the surface that comes next, moves the cursor, and says which bytes of
//! the data section the caller has to read or to pass over.

use vstd::prelude::*;

use crate::error::{DecodeError, FormatError, HeaderError, LayoutError};
use crate::format::{ColorFormat, Format, PixelInfo};
use crate::header::{spec_read, Header, ParseOptions};
use crate::iter::{IterModel, SurfaceInfo, SurfaceIterator};
use crate::layout::{blocks, spec_layout, DataLayout, LayoutKind, LayoutModel, Size};

verus! {

/// What a decoder may use.
#[derive(Debug, Clone, Copy, PartialEq, Eq, Structural)]
pub struct DecodeOptions {
    /// The largest number of bytes that the decoder asks its caller to hold
    /// at a time: one row of blocks of a surface.
    pub memory_limit: usize,
}

impl DecodeOptions {
    /// The options of a decoder that nobody has changed: a memory limit of
    /// 256 MiB.
    pub open spec fn standard() -> DecodeOptions {
        DecodeOptions { memory_limit: 0x1000_0000 }
    }
}

impl Default for DecodeOptions {
    fn default() -> (o: Self)
        ensures
            o == DecodeOptions::standard(),
    {
        DecodeOptions { memory_limit: 0x1000_0000 }
    }
}

/// A rectangle of pixels within a surface.
#[derive(Debug, Clone, Copy, PartialEq, Eq, Structural)]
pub struct Rect {
    pub x: u32,
    pub y: u32,
    pub width: u32,
    pub height: u32,
}

impl Rect {
    /// The rectangle lies within a surface of the given size.
    pub open spec fn within(self, size: Size) -> bool {
        self.x + self.width <= size.width && self.y + self.height <= size.height
    }

    /// The rectangle holds no pixel.
    pub open spec fn empty(self) -> bool {
        self.width == 0 || self.height == 0
    }

    pub fn is_within(&self, size: Size) -> (r: bool)
        ensures
            r == self.within(size),
    {
        self.x as u64 + self.width as u64 <= size.width as u64 && self.y as u64
            + self.height as u64 <= size.height as u64
    }
}

/// The bytes of a surface that hold a rectangle of it: one run of blocks
/// for each row of blocks that the rectangle touches.
#[derive(Debug, Clone, Copy, PartialEq, Eq, Structural)]
pub struct RectPlan {
    /// The first column of blocks that the rectangle touches.
    pub block_x: u32,
    /// The first row of blocks that the rectangle touches.
    pub block_y: u32,
    /// The number of columns of blocks that the rectangle touches.
    pub blocks_wide: u32,
    /// The number of rows of blocks that the rectangle touches, which is the
    /// number of runs.
    pub blocks_high: u32,
    /// The offset of the first run from the start of the surface.
    pub first_offset: u64,
    /// The number of bytes of each run.
    pub run_len: u64,
    /// The distance in bytes from one run to the next: a row of blocks of
    /// the surface.
    pub stride: u64,
    /// The number of bytes of the whole surface.
    pub surface_len: u64,
}

/// A number as a `usize`, or the largest `usize` where it has no room.
pub open spec fn saturate(n: nat) -> usize {
    if n > usize::MAX {
        usize::MAX
    } else {
        n as usize
    }
}

/// The runs of blocks that hold the rectangle `rect` of a surface of the
/// given size. A rectangle without pixels takes no run.
pub open spec fn rect_plan(size: Size, pixel: PixelInfo, rect: Rect) -> RectPlan {
    let bw = pixel.block_width as nat;
    let bh = pixel.block_height as nat;
    let bpb = pixel.bytes_per_block as nat;
    let stride = blocks(size.width as nat, bw) * bpb;
    let block_x = rect.x as nat / bw;
    let block_y = rect.y as nat / bh;
    let blocks_wide = if rect.empty() {
        0
    } else {
        (blocks((rect.x + rect.width) as nat, bw) - block_x) as nat
    };
    let blocks_high = if rect.empty() {
        0
    } else {
        (blocks((rect.y + rect.height) as nat, bh) - block_y) as nat
    };
    RectPlan {
        block_x: block_x as u32,
        block_y: block_y as u32,
        blocks_wide: blocks_wide as u32,
        blocks_high: blocks_high as u32,
        first_offset: if rect.empty() {
            0
        } else {
            (block_y * stride + block_x * bpb) as u64
        },
        run_len: (blocks_wide * bpb) as u64,
        stride: stride as u64,
        surface_len: pixel.surface_len(size.width as nat, size.height as nat) as u64,
    }
}

impl RectPlan {
    /// Every run of the plan lies within the surface.
    pub open spec fn in_surface(self) -> bool {
        self.blocks_high == 0 || self.first_offset + (self.blocks_high - 1) * self.stride
            + self.run_len <= self.surface_len
    }
}

/// The blocks that a span of pixels touches: the block of its first pixel
/// comes before the end of its blocks, and they end within the blocks of
/// any span that holds it.
pub proof fn lemma_blocks_of_span(start: nat, len: nat, total: nat, block: nat)
    requires
        block >= 1,
        len >= 1,
        start + len <= total,
    ensures
        start / block < blocks(start + len, block) <= blocks(total, block),
{
    let b = block as int;
    vstd::arithmetic::div_mod::lemma_div_plus_one(start as int, b);
    vstd::arithmetic::div_mod::lemma_div_is_ordered(start + b, start + len + b - 1, b);
    vstd::arithmetic::div_mod::lemma_div_is_ordered(start + len + b - 1, total + b - 1, b);
}

/// Finds the runs of blocks that hold the rectangle `rect` of a surface of
/// the given size.
fn plan_rect(size: Size, pixel: PixelInfo, rect: Rect) -> (plan: RectPlan)
    requires
        pixel.wf(),
        rect.within(size),
        pixel.surface_len(size.width as nat, size.height as nat) <= u64::MAX,
    ensures
        plan == rect_plan(size, pixel, rect),
        plan.in_surface(),
{
    let bw: u64 = pixel.block_width as u64;
    let bh: u64 = pixel.block_height as u64;
    let bpb: u64 = pixel.bytes_per_block as u64;
    let surface_len: u64 = pixel.surface_bytes(size.width, size.height) as u64;
    let stride: u64 = row_bytes_of(pixel, size.width);
    let block_x: u64 = rect.x as u64 / bw;
    let block_y: u64 = rect.y as u64 / bh;
    proof {
        vstd::arithmetic::div_mod::lemma_div_is_ordered_by_denominator(rect.x as int, 1, bw as int);
        vstd::arithmetic::div_mod::lemma_div_is_ordered_by_denominator(rect.y as int, 1, bh as int);
    }
    if rect.width == 0 || rect.height == 0 {
        return RectPlan {
            block_x: block_x as u32,
            block_y: block_y as u32,
            blocks_wide: 0,
            blocks_high: 0,
            first_offset: 0,
            run_len: 0,
            stride,
            surface_len,
        };
    }
    let end_x: u64 = (rect.x as u64 + rect.width as u64 + (bw - 1)) / bw;
    let end_y: u64 = (rect.y as u64 + rect.height as u64 + (bh - 1)) / bh;
    let ghost all_x = blocks(size.width as nat, bw as nat);
    let ghost all_y = blocks(size.height as nat, bh as nat);
    proof {
        lemma_blocks_of_span(rect.x as nat, rect.width as nat, size.width as nat, bw as nat);
        lemma_blocks_of_span(rect.y as nat, rect.height as nat, size.height as nat, bh as nat);
        vstd::arithmetic::div_mod::lemma_div_is_ordered_by_denominator(
            size.width + bw - 1,
            1,
            bw as int,
        );
        vstd::arithmetic::div_mod::lemma_div_is_ordered_by_denominator(
            size.height + bh - 1,
            1,
            bh as int,
        );
        assert(all_x <= size.width) by (nonlinear_arith)
            requires
                all_x == (size.width + bw - 1) / (bw as int),
                size.width >= 1,
                bw >= 1,
        ;
        assert(all_y <= size.height) by (nonlinear_arith)
            requires
                all_y == (size.height + bh - 1) / (bh as int),
                size.height >= 1,
                bh >= 1,
        ;
        assert(all_x * all_y * bpb == all_y * (all_x * bpb)) by (nonlinear_arith);
        assert((end_y - 1) * stride <= (all_y - 1) * stride) by (nonlinear_arith)
            requires
                end_y <= all_y,
                stride >= 0,
        ;
        assert((all_y - 1) * stride + stride == all_y * stride) by (nonlinear_arith);
        assert(end_x * bpb <= all_x * bpb) by (nonlinear_arith)
            requires
                end_x <= all_x,
                bpb >= 0,
        ;
        assert(block_y * stride <= (end_y - 1) * stride) by (nonlinear_arith)
            requires
                block_y <= end_y - 1,
                stride >= 0,
        ;
        assert(block_x * bpb + (end_x - block_x) * bpb == end_x * bpb) by (nonlinear_arith);
        assert(block_y * stride + (end_y - block_y - 1) * stride == (end_y - 1) * stride)
            by (nonlinear_arith);
        assert((end_x - block_x) * bpb >= 0) by (nonlinear_arith)
            requires
                end_x > block_x,
                bpb >= 0,
        ;
        assert((end_y - block_y - 1) * stride >= 0) by (nonlinear_arith)
            requires
                end_y > block_y,
                stride >= 0,
        ;
        assert(block_x * bpb >= 0) by (nonlinear_arith)
            requires
                block_x >= 0,
                bpb >= 0,
        ;
    }
    let blocks_wide: u64 = end_x - block_x;
    let blocks_high: u64 = end_y - block_y;
    assert(block_y * stride + block_x * bpb + (blocks_high - 1) * stride + blocks_wide * bpb
        <= surface_len);
    let high: u32 = blocks_high as u32;
    assert((high - 1) * stride == (blocks_high - 1) * stride) by (nonlinear_arith)
        requires
            high == blocks_high,
    ;
    RectPlan {
        block_x: block_x as u32,
        block_y: block_y as u32,
        blocks_wide: blocks_wide as u32,
        blocks_high: high,
        first_offset: block_y * stride + block_x * bpb,
        run_len: blocks_wide * bpb,
        stride,
        surface_len,
    }
}

/// The header of a file, the pixel format that it declares, and the layout
/// of its data section.
///
/// The layout is always the one that the header describes for the format.
#[derive(Debug, Clone, Copy, PartialEq, Eq)]
pub struct DdsInfo {
    header: Header,
    format: Format,
    layout: DataLayout,
}

/// The model of a [`DdsInfo`].
pub struct InfoModel {
    pub header: Header,
    pub format: Format,
    pub layout: LayoutModel,
}

/// What a header and a format make: the layout that the header describes
/// for the format, or the reason why there is none.
pub open spec fn spec_info_with_format(header: Header, format: Format) -> Result<
    InfoModel,
    DecodeError,
> {
    match spec_layout(header, format.spec_pixel_info()) {
        Err(e) => Err(DecodeError::Layout(e)),
        Ok(layout) => Ok(InfoModel { header, format, layout }),
    }
}

/// What a header makes: the format that it declares and the layout that it
/// describes, or the reason why there is none.
pub open spec fn spec_info(header: Header) -> Result<InfoModel, DecodeError> {
    match Format::spec_from_header(header) {
        Err(e) => Err(DecodeError::Format(e)),
        Ok(format) => spec_info_with_format(header, format),
    }
}

/// What the start of a file makes under `options`: the header is read,
/// then its array size is held against the caller's limit, then format and
/// layout are found.
pub open spec fn spec_info_of_bytes(bytes: Seq<u8>, options: ParseOptions) -> Result<
    InfoModel,
    DecodeError,
> {
    match spec_read(bytes, options) {
        Err(e) => Err(DecodeError::Header(e)),
        Ok((header, n)) => if header.spec_array_size() > options.max_array_size {
            Err(DecodeError::Layout(LayoutError::ArraySizeTooBig(header.spec_array_size())))
        } else {
            spec_info(header)
        },
    }
}

impl View for DdsInfo {
    type V = InfoModel;

    closed spec fn view(&self) -> InfoModel {
        InfoModel { header: self.header, format: self.format, layout: self.layout@ }
    }
}

impl DdsInfo {
    /// What holds of every info: its layout is the one that its header
    /// describes for its format.
    #[verifier::type_invariant]
    pub closed spec fn inv(self) -> bool {
        &&& self.layout.inv()
        &&& spec_layout(self.header, self.format.spec_pixel_info()) == Ok::<
            LayoutModel,
            LayoutError,
        >(self.layout@)
    }

    /// The layout of every info is the one that its header describes for
    /// its format.
    pub proof fn lemma_valid(self)
        requires
            self.inv(),
        ensures
            spec_info_with_format(self@.header, self@.format) == Ok::<InfoModel, DecodeError>(
                self@,
            ),
            self@.layout.wf(),
    {
        self.layout.lemma_valid();
    }

    /// Reads the header at the start of `bytes` and finds format and
    /// layout. The data section starts after the header, `header().len()`
    /// bytes into a file.
    pub fn read(bytes: &[u8]) -> (r: Result<Self, DecodeError>)
        ensures
            match r {
                Ok(info) => spec_info_of_bytes(bytes@, ParseOptions::strict()) == Ok::<
                    InfoModel,
                    DecodeError,
                >(info@),
                Err(e) => spec_info_of_bytes(bytes@, ParseOptions::strict()) == Err::<
                    InfoModel,
                    DecodeError,
                >(e),
            },
    {
        Self::read_with_options(bytes, &ParseOptions::default())
    }

    /// Reads the header at the start of `bytes` under `options` and finds
    /// format and layout.
    pub fn read_with_options(bytes: &[u8], options: &ParseOptions) -> (r: Result<
        Self,
        DecodeError,
    >)
        ensures
            match r {
                Ok(info) => spec_info_of_bytes(bytes@, *options) == Ok::<InfoModel, DecodeError>(
                    info@,
                ),
                Err(e) => spec_info_of_bytes(bytes@, *options) == Err::<InfoModel, DecodeError>(e),
            },
    {
        let header = match Header::read(bytes, options) {
            Err(e) => {
                return Err(DecodeError::Header(e));
            },
            Ok((header, _)) => header,
        };
        let array_size: u32 = header.array_size();
        if array_size > options.max_array_size {
            return Err(DecodeError::Layout(LayoutError::ArraySizeTooBig(array_size)));
        }
        Self::new(header)
    }

    /// Finds the format that `header` declares and the layout that it
    /// describes.
    pub fn new(header: Header) -> (r: Result<Self, DecodeError>)
        ensures
            match r {
                Ok(info) => spec_info(header) == Ok::<InfoModel, DecodeError>(info@),
                Err(e) => spec_info(header) == Err::<InfoModel, DecodeError>(e),
            },
    {
        match Format::from_header(&header) {
            Err(e) => Err(DecodeError::Format(e)),
            Ok(format) => Self::new_with_format(header, format),
        }
    }

    /// Finds the layout that `header` describes for `format`, whatever
    /// format the header declares.
    pub fn new_with_format(header: Header, format: Format) -> (r: Result<Self, DecodeError>)
        ensures
            match r {
                Ok(info) => spec_info_with_format(header, format) == Ok::<InfoModel, DecodeError>(
                    info@,
                ),
                Err(e) => spec_info_with_format(header, format) == Err::<InfoModel, DecodeError>(
                    e,
                ),
            },
    {
        match DataLayout::from_header_with(&header, format.pixel_info()) {
            Err(e) => Err(DecodeError::Layout(e)),
            Ok(layout) => {
                proof {
                    use_type_invariant(&layout);
                }
                Ok(DdsInfo { header, format, layout })
            },
        }
    }

    pub fn header(&self) -> (r: &Header)
        ensures
            *r == self@.header,
    {
        &self.header
    }

    pub fn format(&self) -> (r: Format)
        ensures
            r == self@.format,
    {
        self.format
    }

    pub fn layout(&self) -> (r: DataLayout)
        ensures
            r@ == self@.layout,
    {
        self.layout
    }
}


/// The state of a decoder: what it decodes, how far it is, and what it may
/// use.
pub struct DecoderModel {
    pub info: InfoModel,
    /// The index of the surface that comes next.
    pub index: nat,
    pub options: DecodeOptions,
}

impl DecoderModel {
    /// The iterator of the decoder.
    pub open spec fn cursor(self) -> IterModel {
        IterModel { layout: self.info.layout, index: self.index }
    }

    /// The number of bytes of one row of blocks of the next surface.
    pub open spec fn row_bytes(self) -> nat {
        let layout = self.info.layout;
        blocks(layout.surface(self.index).width, layout.pixel.block_width as nat) * (
        layout.pixel.bytes_per_block as nat)
    }

    /// The size of the next surface.
    pub open spec fn surface_size(self) -> Size {
        let s = self.info.layout.surface(self.index);
        Size { width: s.width as u32, height: s.height as u32 }
    }

    /// Why a rectangle of the next surface cannot be read into a buffer of
    /// `buffer_len` bytes with rows `row_pitch` bytes apart, if it cannot:
    /// the first check that fails.
    pub open spec fn read_rect_error(
        self,
        buffer_len: usize,
        row_pitch: usize,
        rect: Rect,
        color: ColorFormat,
    ) -> Option<DecodeError> {
        let min_pitch = color.spec_bytes_per_pixel() * rect.width;
        let min_len = row_pitch * rect.height;
        if self.cursor().exhausted() {
            Some(DecodeError::NoMoreSurfaces)
        } else if !rect.within(self.surface_size()) {
            Some(DecodeError::RectOutOfBounds)
        } else if row_pitch < min_pitch {
            Some(DecodeError::RowPitchTooSmall { required_minimum: saturate(min_pitch as nat) })
        } else if buffer_len < min_len {
            Some(DecodeError::RectBufferTooSmall { required_minimum: saturate(min_len as nat) })
        } else if rect_plan(self.surface_size(), self.info.layout.pixel, rect).run_len
            > self.options.memory_limit {
            Some(DecodeError::MemoryLimitExceeded)
        } else {
            None
        }
    }

    /// Why the next surface cannot be read whole into an image of the given
    /// size, if it cannot.
    pub open spec fn read_surface_error(self, size: Size) -> Option<DecodeError> {
        if self.cursor().exhausted() {
            Some(DecodeError::NoMoreSurfaces)
        } else if self.surface_size() != size {
            Some(DecodeError::UnexpectedSurfaceSize)
        } else if self.row_bytes() > self.options.memory_limit {
            Some(DecodeError::MemoryLimitExceeded)
        } else {
            None
        }
    }
}

/// A decoder for the data section of a file, over any reader.
pub struct Decoder<R> {
    reader: R,
    info: DdsInfo,
    iter: SurfaceIterator,
    /// What the decoder may use.
    pub options: DecodeOptions,
}

impl<R> View for Decoder<R> {
    type V = DecoderModel;

    closed spec fn view(&self) -> DecoderModel {
        DecoderModel { info: self.info@, index: self.iter@.index, options: self.options }
    }
}

impl<R> Decoder<R> {
    /// What holds of every decoder: its iterator walks the layout of its
    /// info.
    #[verifier::type_invariant]
    pub closed spec fn inv(self) -> bool {
        &&& self.info.inv()
        &&& self.iter.inv()
        &&& self.iter@.layout == self.info@.layout
    }

    /// The reader that the decoder holds.
    pub closed spec fn spec_reader(self) -> R {
        self.reader
    }

    /// Every decoder has a well-formed layout and an index that is at most
    /// the number of surfaces.
    pub proof fn lemma_valid(self)
        requires
            self.inv(),
        ensures
            self@.info.layout.wf(),
            self@.index <= self@.info.layout.surface_count(),
            self@.info.layout.data_len() <= u64::MAX,
    {
        self.iter.lemma_valid();
    }

    /// A decoder for the file whose header `header` holds, with `reader`
    /// at the start of the data section.
    pub fn new(reader: R, header: &[u8]) -> (r: Result<Self, DecodeError>)
        ensures
            match r {
                Ok(d) => {
                    &&& spec_info_of_bytes(header@, ParseOptions::strict()) == Ok::<
                        InfoModel,
                        DecodeError,
                    >(d@.info)
                    &&& d@.index == 0
                    &&& d@.options == DecodeOptions::standard()
                    &&& d.spec_reader() == reader
                },
                Err(e) => spec_info_of_bytes(header@, ParseOptions::strict()) == Err::<
                    InfoModel,
                    DecodeError,
                >(e),
            },
    {
        Self::new_with_options(reader, header, &ParseOptions::default())
    }

    /// A decoder for the file whose header `header` holds, read under
    /// `options`.
    pub fn new_with_options(reader: R, header: &[u8], options: &ParseOptions) -> (r: Result<
        Self,
        DecodeError,
    >)
        ensures
            match r {
                Ok(d) => {
                    &&& spec_info_of_bytes(header@, *options) == Ok::<InfoModel, DecodeError>(
                        d@.info,
                    )
                    &&& d@.index == 0
                    &&& d@.options == DecodeOptions::standard()
                    &&& d.spec_reader() == reader
                },
                Err(e) => spec_info_of_bytes(header@, *options) == Err::<InfoModel, DecodeError>(
                    e,
                ),
            },
    {
        match DdsInfo::read_with_options(header, options) {
            Err(e) => Err(e),
            Ok(info) => Self::from_info(reader, info),
        }
    }

    /// A decoder for a file that `info` describes, at its first surface.
    pub fn from_info(reader: R, info: DdsInfo) -> (r: Result<Self, DecodeError>)
        ensures
            r matches Ok(d) && d@.info == info@ && d@.index == 0 && d@.options
                == DecodeOptions::standard() && d.spec_reader() == reader,
    {
        proof {
            use_type_invariant(&info);
        }
        let iter = SurfaceIterator::new(info.layout());
        proof {
            use_type_invariant(&iter);
        }
        Ok(Decoder { reader, iter, info, options: DecodeOptions::default() })
    }

    pub fn info(&self) -> (r: &DdsInfo)
        ensures
            r@ == self@.info,
    {
        &self.info
    }

    pub fn format(&self) -> (r: Format)
        ensures
            r == self@.info.format,
    {
        self.info.format()
    }

    pub fn layout(&self) -> (r: DataLayout)
        ensures
            r@ == self@.info.layout,
    {
        self.info.layout()
    }

    /// The extent of level 0: of the texture, of each cube face, or of each
    /// depth slice of a volume.
    pub fn main_size(&self) -> (r: Size)
        ensures
            r.width == self@.info.layout.width,
            r.height == self@.info.layout.height,
    {
        self.info.layout().main_size()
    }

    /// The color that the file stores.
    pub fn native_color(&self) -> (r: ColorFormat)
        ensures
            r == self@.info.format.spec_color(),
    {
        self.info.format().color()
    }

    /// Gives the reader back.
    pub fn into_reader(self) -> (r: R)
        ensures
            r == self.spec_reader(),
    {
        self.reader
    }

    /// The offset of the next surface from the start of the data section:
    /// the number of bytes of the surfaces that have been passed. Once no
    /// surface is left, it is the length of the data section.
    pub fn position(&self) -> (r: u64)
        ensures
            r == self@.cursor().offset(),
            self@.cursor().exhausted() ==> r == self@.info.layout.data_len(),
    {
        proof {
            use_type_invariant(self);
            self.lemma_valid();
        }
        self.iter.offset()
    }

    /// The surface that comes next, or `None` when no surface is left.
    pub fn surface_info(&self) -> (r: Option<SurfaceInfo>)
        ensures
            match r {
                Some(info) => !self@.cursor().exhausted() && info.describes(
                    self@.info.layout,
                    self@.index,
                ),
                None => self@.cursor().exhausted(),
            },
    {
        proof {
            use_type_invariant(self);
        }
        self.iter.current()
    }

    /// Takes the next surface to be read whole into an image of the size
    /// `image_size`, and moves on. The caller reads the `byte_length` bytes
    /// of the surface that is returned and decodes them.
    ///
    /// Refused when no surface is left, when the image has another size
    /// than the surface, and when a row of blocks of the surface takes more
    /// bytes than the memory limit; the decoder then stays where it is.
    pub fn read_surface(&mut self, image_size: Size) -> (r: Result<SurfaceInfo, DecodeError>)
        ensures
            final(self).spec_reader() == old(self).spec_reader(),
            match r {
                Ok(info) => {
                    &&& old(self)@.read_surface_error(image_size) is None
                    &&& info.describes(old(self)@.info.layout, old(self)@.index)
                    &&& final(self)@ == (DecoderModel { index: old(self)@.index + 1, ..old(self)@ })
                },
                Err(e) => {
                    &&& old(self)@.read_surface_error(image_size) == Some(e)
                    &&& final(self)@ == old(self)@
                },
            },
    {
        proof {
            use_type_invariant(&*self);
        }
        let current = match self.iter.current() {
            None => {
                return Err(DecodeError::NoMoreSurfaces);
            },
            Some(current) => current,
        };
        if image_size.width != current.size.width || image_size.height != current.size.height {
            return Err(DecodeError::UnexpectedSurfaceSize);
        }
        let pixel = self.info.layout().pixel_info();
        let row: u64 = row_bytes_of(pixel, current.size.width);
        if row > self.options.memory_limit as u64 {
            return Err(DecodeError::MemoryLimitExceeded);
        }
        let mut iter = self.iter;
        iter.advance();
        proof {
            use_type_invariant(&iter);
        }
        self.iter = iter;
        Ok(current)
    }

    /// Takes the next surface to have the rectangle `rect` of it read into
    /// a buffer of `buffer_len` bytes, in the color `color` and with rows
    /// `row_pitch` bytes apart, and moves on. The caller reads the runs of
    /// the plan that is returned, decodes them, and passes over the rest
    /// of the surface.
    ///
    /// Refused when no surface is left, when the rectangle does not lie
    /// within the surface, when the row pitch is less than a row of the
    /// rectangle, when the buffer is less than its rows, and when a run
    /// takes more bytes than the memory limit; the decoder then stays where
    /// it is.
    pub fn read_surface_rect(
        &mut self,
        buffer_len: usize,
        row_pitch: usize,
        rect: Rect,
        color: ColorFormat,
    ) -> (r: Result<RectPlan, DecodeError>)
        ensures
            final(self).spec_reader() == old(self).spec_reader(),
            match r {
                Ok(plan) => {
                    &&& old(self)@.read_rect_error(buffer_len, row_pitch, rect, color) is None
                    &&& plan == rect_plan(
                        old(self)@.surface_size(),
                        old(self)@.info.layout.pixel,
                        rect,
                    )
                    &&& plan.in_surface()
                    &&& plan.surface_len == old(self)@.info.layout.surface(old(self)@.index).len
                    &&& final(self)@ == (DecoderModel { index: old(self)@.index + 1, ..old(self)@ })
                },
                Err(e) => {
                    &&& old(self)@.read_rect_error(buffer_len, row_pitch, rect, color) == Some(e)
                    &&& final(self)@ == old(self)@
                },
            },
    {
        proof {
            use_type_invariant(&*self);
        }
        let current = match self.iter.current() {
            None => {
                return Err(DecodeError::NoMoreSurfaces);
            },
            Some(current) => current,
        };
        assert(current.size == self@.surface_size());
        if !rect.is_within(current.size) {
            return Err(DecodeError::RectOutOfBounds);
        }
        let bytes_per_pixel: u64 = color.bytes_per_pixel() as u64;
        assert(bytes_per_pixel * rect.width <= 16 * 0x1_0000_0000) by (nonlinear_arith)
            requires
                bytes_per_pixel <= 16,
                rect.width <= 0x1_0000_0000,
        ;
        let min_pitch: u64 = bytes_per_pixel * rect.width as u64;
        if (row_pitch as u64) < min_pitch {
            let required_minimum: usize = if min_pitch > usize::MAX as u64 {
                usize::MAX
            } else {
                min_pitch as usize
            };
            return Err(DecodeError::RowPitchTooSmall { required_minimum });
        }
        assert(row_pitch * rect.height <= 0x1_0000_0000_0000_0000 * 0x1_0000_0000)
            by (nonlinear_arith)
            requires
                row_pitch <= 0x1_0000_0000_0000_0000,
                rect.height <= 0x1_0000_0000,
        ;
        let min_len: u128 = (row_pitch as u128) * (rect.height as u128);
        if (buffer_len as u128) < min_len {
            let required_minimum: usize = if min_len > usize::MAX as u128 {
                usize::MAX
            } else {
                min_len as usize
            };
            return Err(DecodeError::RectBufferTooSmall { required_minimum });
        }
        let pixel = self.info.layout().pixel_info();
        let plan = plan_rect(current.size, pixel, rect);
        if plan.run_len > self.options.memory_limit as u64 {
            return Err(DecodeError::MemoryLimitExceeded);
        }
        let mut iter = self.iter;
        iter.advance();
        proof {
            use_type_invariant(&iter);
        }
        self.iter = iter;
        Ok(plan)
    }

    /// Passes over the next surface and says how many bytes of the data
    /// section it takes. Refused when no surface is left.
    pub fn skip_surface(&mut self) -> (r: Result<u64, DecodeError>)
        ensures
            final(self).spec_reader() == old(self).spec_reader(),
            match r {
                Ok(bytes) => {
                    &&& !old(self)@.cursor().exhausted()
                    &&& bytes == old(self)@.info.layout.surface(old(self)@.index).len
                    &&& final(self)@ == (DecoderModel { index: old(self)@.index + 1, ..old(self)@ })
                },
                Err(e) => {
                    &&& e == DecodeError::NoMoreSurfaces
                    &&& old(self)@.cursor().exhausted()
                    &&& final(self)@ == old(self)@
                },
            },
    {
        proof {
            use_type_invariant(&*self);
        }
        let current = match self.iter.current() {
            None => {
                return Err(DecodeError::NoMoreSurfaces);
            },
            Some(current) => current,
        };
        let mut iter = self.iter;
        iter.advance();
        proof {
            use_type_invariant(&iter);
        }
        self.iter = iter;
        Ok(current.byte_length)
    }

    /// Passes over the mipmaps that come next, up to the next surface of
    /// level 0 or the end, and says how many bytes of the data section
    /// they take. Does nothing at a surface of level 0 and at the end.
    ///
    /// Refused within a level of a volume; the decoder then stays where it
    /// is.
    pub fn skip_mipmaps(&mut self) -> (r: Result<u64, DecodeError>)
        ensures
            final(self).spec_reader() == old(self).spec_reader(),
            match r {
                Ok(bytes) => {
                    &&& old(self)@.info.layout.kind == LayoutKind::Volume
                        ==> old(self)@.info.layout.at_level_start(old(self)@.index)
                    &&& final(self)@ == (DecoderModel {
                        index: old(self)@.info.layout.next_main(old(self)@.index),
                        ..old(self)@
                    })
                    &&& bytes == final(self)@.cursor().offset() - old(self)@.cursor().offset()
                },
                Err(e) => {
                    &&& e == DecodeError::CannotSkipMipmapsInVolume
                    &&& old(self)@.info.layout.kind == LayoutKind::Volume
                    &&& !old(self)@.info.layout.at_level_start(old(self)@.index)
                    &&& final(self)@ == old(self)@
                },
            },
    {
        proof {
            use_type_invariant(&*self);
        }
        let mut iter = self.iter;
        let r = iter.skip_mipmaps();
        proof {
            use_type_invariant(&iter);
        }
        self.iter = iter;
        r
    }
}

/// The number of bytes of one row of blocks of a surface of the given
/// width, as far as 64 bits count them.
fn row_bytes_of(pixel: PixelInfo, width: u32) -> (r: u64)
    requires
        pixel.wf(),
    ensures
        r == blocks(width as nat, pixel.block_width as nat) * (pixel.bytes_per_block as nat),
{
    let bx: u64 = (width as u64 + (pixel.block_width as u64 - 1)) / (pixel.block_width as u64);
    assert(bx * pixel.bytes_per_block <= 0x1_0000_0100 * 0x100) by (nonlinear_arith)
        requires
            bx <= 0x1_0000_0100,
            pixel.bytes_per_block <= 0x100,
    ;
    bx * (pixel.bytes_per_block as u64)
}

} // verus!
