//! The encoder: which surface is written next, and what is refused.
//!
//! The encoder moves no bytes. The caller writes the header, then for each
//! surface that the encoder has taken the encoded bytes of that surface,
//! in the order in which the encoder took them.

use vstd::prelude::*;

use crate::error::{EncodeError, LayoutError};
use crate::format::{ColorFormat, Dithering, Format};
use crate::header::Header;
use crate::iter::{IterModel, SurfaceInfo, SurfaceIterator};
use crate::layout::{spec_layout, DataLayout, LayoutKind, LayoutModel, Size};

verus! {

/// How an encoder encodes.
#[derive(Debug, Clone, Copy, PartialEq, Eq, Structural)]
pub struct EncodeOptions {
    pub dithering: Dithering,
}

impl EncodeOptions {
    /// The options of an encoder that nobody has changed: no dithering.
    pub open spec fn standard() -> EncodeOptions {
        EncodeOptions { dithering: Dithering { color: false, alpha: false } }
    }
}

impl Default for EncodeOptions {
    fn default() -> (o: Self)
        ensures
            o == EncodeOptions::standard(),
    {
        EncodeOptions { dithering: Dithering { color: false, alpha: false } }
    }
}

/// The filter that makes a mipmap out of the surface of level 0.
#[derive(Debug, Clone, Copy, PartialEq, Eq, Structural)]
pub enum ResizeFilter {
    Nearest,
    Box,
    Triangle,
    Mitchell,
    Lanczos3,
}

impl Default for ResizeFilter {
    fn default() -> (f: Self)
        ensures
            f == ResizeFilter::Box,
    {
        ResizeFilter::Box
    }
}

/// How one surface is written.
#[derive(Debug, Clone, Copy, PartialEq, Eq, Structural)]
pub struct WriteOptions {
    /// Write, after the surface, the mipmaps that follow it, made from it.
    /// Ignored for the depth slices of a volume.
    pub generate_mipmaps: bool,
    /// The alpha channel is straight alpha: colors are multiplied by alpha
    /// before they are resized, and divided by it afterwards.
    pub resize_straight_alpha: bool,
    pub resize_filter: ResizeFilter,
}

impl WriteOptions {
    /// The options of a plain write: no mipmaps are made; where they are
    /// asked for, alpha is straight and the filter is the box filter.
    pub open spec fn standard() -> WriteOptions {
        WriteOptions {
            generate_mipmaps: false,
            resize_straight_alpha: true,
            resize_filter: ResizeFilter::Box,
        }
    }
}

impl Default for WriteOptions {
    fn default() -> (o: Self)
        ensures
            o == WriteOptions::standard(),
    {
        WriteOptions {
            generate_mipmaps: false,
            resize_straight_alpha: true,
            resize_filter: ResizeFilter::Box,
        }
    }
}

impl LayoutModel {
    /// The extent of surface `k` in file order.
    pub open spec fn size_at(self, k: nat) -> Size {
        let s = self.surface(k);
        Size { width: s.width as u32, height: s.height as u32 }
    }

    /// The extents of the surfaces from index `from` up to index `to`.
    pub open spec fn sizes(self, from: nat, to: nat) -> Seq<Size> {
        Seq::new((to - from) as nat, |i: int| self.size_at((from + i) as nat))
    }
}

/// The state of an encoder.
pub struct EncoderModel {
    pub format: Format,
    pub layout: LayoutModel,
    /// The index of the surface that comes next.
    pub index: nat,
    pub options: EncodeOptions,
}

impl EncoderModel {
    /// The iterator of the encoder.
    pub open spec fn cursor(self) -> IterModel {
        IterModel { layout: self.layout, index: self.index }
    }

    /// Why an image of the given size cannot be written as the next
    /// surface, if it cannot.
    pub open spec fn write_error(self, size: Size) -> Option<EncodeError> {
        if self.cursor().exhausted() {
            Some(EncodeError::TooManySurfaces)
        } else if self.layout.size_at(self.index) != size {
            Some(EncodeError::UnexpectedSurfaceSize)
        } else {
            None
        }
    }

    /// The index that the encoder moves to when it writes a surface under
    /// `options`: past the surface, and where mipmaps are made and the
    /// layout is no volume, past the mipmaps that follow it.
    pub open spec fn after_write(self, options: WriteOptions) -> nat {
        if options.generate_mipmaps && self.layout.kind != LayoutKind::Volume {
            self.layout.next_main(self.index + 1)
        } else {
            self.index + 1
        }
    }
}

/// What an encoder for `format` makes of `header`: the layout that the
/// header describes for the format, or the reason why nothing can be
/// encoded.
pub open spec fn spec_encoder_layout(format: Format, header: Header) -> Result<
    LayoutModel,
    EncodeError,
> {
    if format.spec_encoding_support() is None {
        Err(EncodeError::UnsupportedFormat(format))
    } else {
        match spec_layout(header, format.spec_pixel_info()) {
            Err(e) => Err(EncodeError::Layout(e)),
            Ok(layout) => Ok(layout),
        }
    }
}

/// The surface that comes next is a mipmap.
fn is_mipmap(next: &Option<SurfaceInfo>) -> (r: bool)
    ensures
        r == (next matches Some(info) && info.level > 0),
{
    match next {
        Some(info) => info.is_mipmap(),
        None => false,
    }
}

/// An encoder for the data section of a file, over any writer.
pub struct Encoder<W> {
    writer: W,
    format: Format,
    layout: DataLayout,
    iter: SurfaceIterator,
    /// How the encoder encodes.
    pub options: EncodeOptions,
}

impl<W> View for Encoder<W> {
    type V = EncoderModel;

    closed spec fn view(&self) -> EncoderModel {
        EncoderModel {
            format: self.format,
            layout: self.layout@,
            index: self.iter@.index,
            options: self.options,
        }
    }
}

impl<W> Encoder<W> {
    /// What holds of every encoder: its format can be encoded, and its
    /// iterator walks its layout.
    #[verifier::type_invariant]
    pub closed spec fn inv(self) -> bool {
        &&& self.layout.inv()
        &&& self.iter.inv()
        &&& self.iter@.layout == self.layout@
        &&& self.format.spec_encoding_support() is Some
    }

    /// The writer that the encoder holds.
    pub closed spec fn spec_writer(self) -> W {
        self.writer
    }

    /// Every encoder has a format that can be encoded, a well-formed
    /// layout, and an index that is at most the number of surfaces.
    pub proof fn lemma_valid(self)
        requires
            self.inv(),
        ensures
            self@.format.spec_encoding_support() is Some,
            self@.layout.wf(),
            self@.index <= self@.layout.surface_count(),
            self@.layout.data_len() <= u64::MAX,
    {
        self.iter.lemma_valid();
    }

    /// An encoder for a file with the header `header` and pixels in
    /// `format`, at its first surface. The bytes of the header, which
    /// `Header::write` gives, come first in the file.
    pub fn new(writer: W, format: Format, header: &Header) -> (r: Result<Self, EncodeError>)
        ensures
            match r {
                Ok(e) => {
                    &&& spec_encoder_layout(format, *header) == Ok::<LayoutModel, EncodeError>(
                        e@.layout,
                    )
                    &&& e@.format == format
                    &&& e@.index == 0
                    &&& e@.options == EncodeOptions::standard()
                    &&& e.spec_writer() == writer
                },
                Err(e) => spec_encoder_layout(format, *header) == Err::<LayoutModel, EncodeError>(
                    e,
                ),
            },
    {
        if format.encoding_support().is_none() {
            return Err(EncodeError::UnsupportedFormat(format));
        }
        let layout = match DataLayout::from_header_with(header, format.pixel_info()) {
            Err(e) => {
                return Err(EncodeError::Layout(e));
            },
            Ok(layout) => layout,
        };
        let iter = SurfaceIterator::new(layout);
        proof {
            use_type_invariant(&layout);
            use_type_invariant(&iter);
        }
        Ok(Encoder { writer, format, layout, iter, options: EncodeOptions::default() })
    }

    pub fn format(&self) -> (r: Format)
        ensures
            r == self@.format,
    {
        self.format
    }

    pub fn layout(&self) -> (r: DataLayout)
        ensures
            r@ == self@.layout,
    {
        self.layout
    }

    /// The extent of level 0: of the texture, of each cube face, or of each
    /// depth slice of a volume.
    pub fn main_size(&self) -> (r: Size)
        ensures
            r.width == self@.layout.width,
            r.height == self@.layout.height,
    {
        self.layout.main_size()
    }

    /// The color that the file stores.
    pub fn native_color(&self) -> (r: ColorFormat)
        ensures
            r == self@.format.spec_color(),
    {
        self.format.color()
    }

    /// Gives the writer back.
    pub fn into_writer(self) -> (w: W)
        ensures
            w == self.spec_writer(),
    {
        self.writer
    }

    /// The number of bytes of the data section that the surfaces taken so
    /// far make. Once no surface is left, it is the length of the data
    /// section.
    pub fn position(&self) -> (r: u64)
        ensures
            r == self@.cursor().offset(),
            self@.cursor().exhausted() ==> r == self@.layout.data_len(),
    {
        proof {
            use_type_invariant(self);
            self.lemma_valid();
        }
        self.iter.offset()
    }

    /// Ends the file: gives the writer back to be flushed, or refuses
    /// because surfaces are missing.
    pub fn finish(self) -> (r: Result<W, EncodeError>)
        ensures
            match r {
                Ok(w) => self@.cursor().exhausted() && w == self.spec_writer(),
                Err(e) => !self@.cursor().exhausted() && e == EncodeError::MissingSurfaces,
            },
    {
        proof {
            use_type_invariant(&self);
        }
        if self.iter.current().is_some() {
            return Err(EncodeError::MissingSurfaces);
        }
        Ok(self.writer)
    }

    /// The surface that comes next, or `None` when no surface is left.
    pub fn surface_info(&self) -> (r: Option<SurfaceInfo>)
        ensures
            match r {
                Some(info) => !self@.cursor().exhausted() && info.describes(
                    self@.layout,
                    self@.index,
                ),
                None => self@.cursor().exhausted(),
            },
    {
        proof {
            use_type_invariant(self);
        }
        self.iter.current()
    }

    /// Takes an image of the size `image_size` as the next surface, and
    /// moves on. The caller encodes the image and writes it.
    ///
    /// Refused when no surface is left and when the image has another size
    /// than the surface; the encoder then stays where it is.
    pub fn write_surface(&mut self, image_size: Size) -> (r: Result<(), EncodeError>)
        ensures
            final(self).spec_writer() == old(self).spec_writer(),
            match r {
                Ok(_) => {
                    &&& old(self)@.write_error(image_size) is None
                    &&& final(self)@ == (EncoderModel { index: old(self)@.index + 1, ..old(self)@ })
                },
                Err(e) => {
                    &&& old(self)@.write_error(image_size) == Some(e)
                    &&& final(self)@ == old(self)@
                },
            },
    {
        match self.write_surface_with(image_size, &WriteOptions::default()) {
            Ok(_) => Ok(()),
            Err(e) => Err(e),
        }
    }

    /// Takes an image of the size `image_size` as the next surface, and
    /// with it, where `options` ask for mipmaps and the layout is no
    /// volume, the mipmaps that follow it. Returns the sizes of those
    /// mipmaps in file order: the caller encodes the image and writes it,
    /// then resizes the image to each of the sizes, and encodes and writes
    /// each.
    ///
    /// Refused when no surface is left and when the image has another size
    /// than the surface; the encoder then stays where it is.
    pub fn write_surface_with(&mut self, image_size: Size, options: &WriteOptions) -> (r: Result<
        Vec<Size>,
        EncodeError,
    >)
        ensures
            final(self).spec_writer() == old(self).spec_writer(),
            match r {
                Ok(mipmaps) => {
                    &&& old(self)@.write_error(image_size) is None
                    &&& final(self)@ == (EncoderModel {
                        index: old(self)@.after_write(*options),
                        ..old(self)@
                    })
                    &&& old(self)@.index + 1 <= final(self)@.index
                    &&& mipmaps@ == old(self)@.layout.sizes(
                        old(self)@.index + 1,
                        final(self)@.index,
                    )
                },
                Err(e) => {
                    &&& old(self)@.write_error(image_size) == Some(e)
                    &&& final(self)@ == old(self)@
                },
            },
    {
        proof {
            use_type_invariant(&*self);
            self.lemma_valid();
        }
        let ghost m = self.layout@;
        let ghost first = (self.iter@.index + 1) as nat;
        let current = match self.iter.current() {
            None => {
                return Err(EncodeError::TooManySurfaces);
            },
            Some(current) => current,
        };
        assert(current.size == m.size_at(self.iter@.index));
        if current.size.width != image_size.width || current.size.height != image_size.height {
            return Err(EncodeError::UnexpectedSurfaceSize);
        }
        let mut iter = self.iter;
        iter.advance();
        proof {
            use_type_invariant(&iter);
        }
        let mut mipmaps: Vec<Size> = Vec::new();
        if options.generate_mipmaps && !self.layout.is_volume() {
            let mut next = iter.current();
            assert(mipmaps@ =~= m.sizes(first, first));
            while is_mipmap(&next)
                invariant
                    iter.inv(),
                    iter@.layout == m,
                    first <= iter@.index,
                    m.next_main(iter@.index) == m.next_main(first),
                    mipmaps@ == m.sizes(first, iter@.index),
                    match next {
                        Some(info) => !iter@.exhausted() && info.describes(m, iter@.index),
                        None => iter@.exhausted(),
                    },
                decreases m.surface_count() - iter@.index,
            {
                let info = next.unwrap();
                let ghost before = iter@.index;
                assert(info.size == m.size_at(before));
                mipmaps.push(info.size);
                iter.advance();
                next = iter.current();
                proof {
                    use_type_invariant(&iter);
                    assert(mipmaps@ =~= m.sizes(first, iter@.index));
                }
            }
        }
        proof {
            use_type_invariant(&iter);
            assert(mipmaps@ =~= m.sizes(first, iter@.index));
        }
        self.iter = iter;
        Ok(mipmaps)
    }
}

} // verus!
