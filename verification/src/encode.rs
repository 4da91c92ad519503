//! The encoders of surfaces: what encoding asks of an image, and from the
//! pixels of an image, with four channels of 8 bits each, to the bytes of a
//! surface.

use vstd::prelude::*;

use crate::encode::bc::{encode_bc_surface, spec_encode_blocks};
use crate::encoder::EncodeOptions;
use crate::error::EncodeError;
use crate::format::{Format, SizeMultiple};
use crate::grid::{PixelGrid, Rgba8};
use crate::layout::Size;
use crate::uncompressed::{encode_uncompressed, encoded};

pub mod bc;
pub mod bc1;
pub mod bc4;

verus! {

impl SizeMultiple {
    /// Width and height of `size` are multiples of what is asked for.
    pub open spec fn divides(self, size: Size) -> bool {
        &&& self.width_multiple != 0 ==> size.width % self.width_multiple == 0
        &&& self.height_multiple != 0 ==> size.height % self.height_multiple == 0
    }

    pub fn is_multiple(&self, size: Size) -> (r: bool)
        ensures
            r == self.divides(size),
    {
        (self.width_multiple == 0 || size.width % self.width_multiple == 0) && (
        self.height_multiple == 0 || size.height % self.height_multiple == 0)
    }
}

impl Format {
    /// Why an image of the given size cannot be encoded in the format, if
    /// it cannot: the format can only be decoded, the image has no pixels,
    /// or its size is not a multiple of what the format asks for.
    pub open spec fn encode_size_error(self, size: Size) -> Option<EncodeError> {
        match self.spec_encoding_support() {
            None => Some(EncodeError::UnsupportedFormat(self)),
            Some(support) => if size.width == 0 || size.height == 0 {
                Some(EncodeError::EmptySurface)
            } else if !support.size_multiple.divides(size) {
                Some(EncodeError::InvalidSize(support.size_multiple))
            } else {
                None
            },
        }
    }

    /// Checks that an image of the given size can be encoded in the
    /// format.
    pub fn check_encode_size(self, size: Size) -> (r: Result<(), EncodeError>)
        ensures
            match r {
                Ok(_) => self.encode_size_error(size) is None,
                Err(e) => self.encode_size_error(size) == Some(e),
            },
    {
        match self.encoding_support() {
            None => Err(EncodeError::UnsupportedFormat(self)),
            Some(support) => check_size(size, support.size_multiple),
        }
    }
}

/// Checks that an image of the given size has pixels, and that its width
/// and height are multiples of what is asked for.
pub fn check_size(size: Size, multiple: SizeMultiple) -> (r: Result<(), EncodeError>)
    ensures
        match r {
            Ok(_) => size.width != 0 && size.height != 0 && multiple.divides(size),
            Err(e) => if size.width == 0 || size.height == 0 {
                e == EncodeError::EmptySurface
            } else {
                !multiple.divides(size) && e == EncodeError::InvalidSize(multiple)
            },
        },
{
    if size.width == 0 || size.height == 0 {
        Err(EncodeError::EmptySurface)
    } else if !multiple.is_multiple(size) {
        Err(EncodeError::InvalidSize(multiple))
    } else {
        Ok(())
    }
}


/// Encodes an image as a surface of the format: pixel by pixel in an
/// uncompressed format whose channels are whole numbers, block by block in
/// one of the formats BC1 to BC5. The bytes are those of a surface of the
/// size of the image.
///
/// Another format is refused as unsupported by this encoder, and an image
/// without pixels as an empty surface.
pub fn encode_surface<'a>(
    format: Format,
    grid: &PixelGrid<'a, Rgba8>,
    options: &EncodeOptions,
) -> (r: Result<Vec<u8>, EncodeError>)
    ensures
        match r {
            Ok(bytes) => {
                &&& grid.spec_width() != 0 && grid.spec_height() != 0
                &&& bytes@.len() == format.spec_pixel_info().surface_len(
                    grid.spec_width(),
                    grid.spec_height(),
                )
                &&& match format.spec_pixel_layout() {
                    Some(layout) => bytes@ == encoded(layout, grid.pixels(), grid.pixels().len()),
                    None => format.is_bc1_to_bc5() && bytes@ == spec_encode_blocks(
                        format,
                        grid.tiles(),
                        *options,
                        grid.tiles().len(),
                    ),
                }
            },
            Err(e) => if format.spec_pixel_layout() is None && !format.is_bc1_to_bc5() {
                e == EncodeError::UnsupportedFormat(format)
            } else {
                e == EncodeError::EmptySurface && (grid.spec_width() == 0 || grid.spec_height()
                    == 0)
            },
        },
{
    match format.pixel_layout() {
        Some(layout) => {
            let r = encode_uncompressed(format, grid);
            proof {
                let w = grid.spec_width();
                let h = grid.spec_height();
                assert(format.spec_pixel_info().surface_len(w, h) == w * h * layout.bytes) by {
                    assert(format.spec_pixel_info().block_width == 1);
                    assert(format.spec_pixel_info().block_height == 1);
                    assert(crate::layout::blocks(w, 1) == w);
                    assert(crate::layout::blocks(h, 1) == h);
                }
            }
            r
        },
        None => encode_bc_surface(format, grid, options),
    }
}

} // verus!
