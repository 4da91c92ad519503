//! A codec for the DirectDraw Surface (DDS) texture container that moves
//! no bytes itself.
//!
//! The library knows the container: the header, the catalog of pixel
//! formats, the byte layout of every surface, and the cursor that walks the
//! surfaces in file order. A decoder and an encoder say which bytes come
//! next; the caller reads and writes them. The codecs of the formats whose
//! pixels are whole numbers work on images of four channels of 8 bits.

pub mod decode;
pub mod decoder;
pub mod encode;
pub mod encoder;
pub mod error;
pub mod format;
pub mod grid;
pub mod header;
pub mod iter;
pub mod layout;
pub mod resize;
pub mod text;
pub mod uncompressed;

pub use decode::bc::{decode_bc_rect, decode_bc_surface, decompress_bc4_block};
pub use decode::bc1::decompress_bc1_block;
pub use decode::{decode_surface, store_rows};
pub use decoder::{DdsInfo, DecodeOptions, Decoder, Rect, RectPlan};
pub use encode::bc::{
    bc2_alpha, block_universal, concat_blocks, encode_bc_surface, get_4x4_rgba, get_bc1_options,
    get_bc3_options, get_bc4_options, handle_bc4, handle_bc5, Bc1Options, Bc4Options,
};
pub use encode::bc1::compress_bc1_block;
pub use encode::bc4::compress_bc4_block;
pub use encode::encode_surface;
pub use encoder::{EncodeOptions, Encoder, ResizeFilter, WriteOptions};
pub use error::{DecodeError, EncodeError, FormatError, HeaderError, LayoutError};
pub use format::{
    Channels, ColorFormat, Dithering, EncodingSupport, Format, PixelInfo, Precision, SizeMultiple,
};
pub use grid::{PixelGrid, Rgba8};
pub use header::{
    Dx10Header, DxgiFormat, FourCC, Header, MagicBytes, ParseOptions, PixelFormat,
    ResourceDimension,
};
pub use iter::{LevelKind, SlotKind, SurfaceInfo, SurfaceIterator};
pub use layout::{DataLayout, LayoutKind, Size, SurfaceDescriptor};
pub use resize::resize;
pub use uncompressed::{decode_uncompressed, encode_uncompressed, Field, PixelLayout};
