//! The DDS header: its fields, its byte encoding, and the checks a reader
//! applies to it.
//!
//! A header is kept as a faithful record of every 32-bit word of its byte
//! encoding, so that writing is the exact inverse of reading.

use vstd::prelude::*;

use vstd::slice::slice_subrange;

use crate::error::HeaderError;

verus! {

/// The value of the header's size field.
pub const HEADER_SIZE: u32 = 124;

/// The value of the pixel format's size field.
pub const PIXEL_FORMAT_SIZE: u32 = 32;

/// Header flag: the depth field is in use.
pub const DDSD_DEPTH: u32 = 0x80_0000;

/// Pixel format flag: the pixel format is named by its FourCC tag.
pub const DDPF_FOURCC: u32 = 0x4;

/// Pixel format flag: the pixel has an alpha channel.
pub const DDPF_ALPHAPIXELS: u32 = 0x1;

/// `caps2` flag: the file holds a cube map.
pub const DDSCAPS2_CUBEMAP: u32 = 0x200;

/// `caps2` flags: the six faces of a cube map.
pub const DDSCAPS2_CUBEMAP_ALL_FACES: u32 = 0xFC00;

/// `caps2` flag: the file holds a volume texture.
pub const DDSCAPS2_VOLUME: u32 = 0x20_0000;

/// The FourCC tag `DX10`, which announces the header extension.
pub const FOURCC_DX10: u32 = 0x3031_5844;

/// A four-character tag, read as a little-endian number.
#[derive(Debug, Clone, Copy, PartialEq, Eq, Structural)]
pub struct FourCC(pub u32);

/// A DXGI format number.
#[derive(Debug, Clone, Copy, PartialEq, Eq, Structural)]
pub struct DxgiFormat(pub u32);

/// The kind of resource that the header extension declares.
#[derive(Debug, Clone, Copy, PartialEq, Eq, Structural)]
pub enum ResourceDimension {
    Buffer,
    Texture1D,
    Texture2D,
    Texture3D,
}

/// The pixel format record of the header.
#[derive(Debug, Clone, Copy, PartialEq, Eq, Structural)]
pub struct PixelFormat {
    pub size: u32,
    pub flags: u32,
    pub four_cc: FourCC,
    pub rgb_bit_count: u32,
    pub r_bit_mask: u32,
    pub g_bit_mask: u32,
    pub b_bit_mask: u32,
    pub a_bit_mask: u32,
}

/// The header extension that follows a `DX10` FourCC tag.
#[derive(Debug, Clone, Copy, PartialEq, Eq, Structural)]
pub struct Dx10Header {
    pub dxgi_format: DxgiFormat,
    pub resource_dimension: ResourceDimension,
    pub misc_flag: u32,
    pub array_size: u32,
    pub misc_flags2: u32,
}

/// A DDS header.
#[derive(Debug, Clone, Copy, PartialEq, Eq)]
pub struct Header {
    pub flags: u32,
    pub height: u32,
    pub width: u32,
    pub pitch_or_linear_size: u32,
    pub depth: u32,
    pub mipmap_count: u32,
    pub reserved1: [u32; 11],
    pub pixel_format: PixelFormat,
    pub caps: u32,
    pub caps2: u32,
    pub caps3: u32,
    pub caps4: u32,
    pub reserved2: u32,
    pub dx10: Option<Dx10Header>,
}

/// Whether the input starts with the four magic bytes.
#[derive(Debug, Clone, Copy, PartialEq, Eq, Structural)]
pub enum MagicBytes {
    /// The magic bytes come first and are checked.
    Required,
    /// The input starts with the header itself.
    Skip,
}

/// What a reader tolerates.
#[derive(Debug, Clone, Copy, PartialEq, Eq, Structural)]
pub struct ParseOptions {
    pub file_magic: MagicBytes,
    /// Accept any value in the pixel format's size field.
    pub permissive_pixel_format_size: bool,
    /// The largest array size that is accepted.
    pub max_array_size: u32,
}

impl ParseOptions {
    /// The options of a strict reader: magic bytes required, the pixel
    /// format's size checked, arrays of up to 4096 elements.
    pub open spec fn strict() -> ParseOptions {
        ParseOptions {
            file_magic: MagicBytes::Required,
            permissive_pixel_format_size: false,
            max_array_size: 4096,
        }
    }
}

impl Default for ParseOptions {
    fn default() -> (o: Self)
        ensures
            o == ParseOptions::strict(),
    {
        ParseOptions {
            file_magic: MagicBytes::Required,
            permissive_pixel_format_size: false,
            max_array_size: 4096,
        }
    }
}

/// The four magic bytes, the ASCII text `DDS `.
pub open spec fn magic_bytes() -> Seq<u8> {
    seq![0x44u8, 0x44u8, 0x53u8, 0x20u8]
}

/// Byte `k` of the little-endian encoding of `v`.
#[verifier::opaque]
pub open spec fn byte_of(v: u32, k: int) -> u8 {
    if k == 0 {
        (v % 256) as u8
    } else if k == 1 {
        (v / 256 % 256) as u8
    } else if k == 2 {
        (v / 65536 % 256) as u8
    } else {
        (v / 16777216) as u8
    }
}

/// The little-endian encoding of a sequence of words.
pub open spec fn words_bytes(ws: Seq<u32>) -> Seq<u8> {
    Seq::new(4 * ws.len(), |i: int| byte_of(ws[i / 4], i % 4))
}

/// The little-endian word that starts at byte `at`.
#[verifier::opaque]
pub open spec fn word_at(b: Seq<u8>, at: int) -> u32 {
    (b[at] as int + 256 * (b[at + 1] as int) + 65536 * (b[at + 2] as int) + 16777216 * (b[at + 3] as int)) as u32
}

/// The DXGI format numbers that exist.
pub open spec fn known_dxgi_format(v: u32) -> bool {
    v <= 115 || (130 <= v && v <= 132) || (189 <= v && v <= 191)
}

/// The bit counts that a mask-based pixel format may declare.
pub open spec fn valid_rgb_bit_count(v: u32) -> bool {
    v == 8 || v == 16 || v == 24 || v == 32
}

impl ResourceDimension {
    /// The number that stands for the dimension in the file.
    pub open spec fn code(self) -> u32 {
        match self {
            ResourceDimension::Buffer => 1,
            ResourceDimension::Texture1D => 2,
            ResourceDimension::Texture2D => 3,
            ResourceDimension::Texture3D => 4,
        }
    }

    /// The dimension that `v` stands for, if any.
    pub open spec fn spec_from_code(v: u32) -> Option<ResourceDimension> {
        if v == 1 {
            Some(ResourceDimension::Buffer)
        } else if v == 2 {
            Some(ResourceDimension::Texture1D)
        } else if v == 3 {
            Some(ResourceDimension::Texture2D)
        } else if v == 4 {
            Some(ResourceDimension::Texture3D)
        } else {
            None
        }
    }

    pub fn to_code(self) -> (v: u32)
        ensures
            v == self.code(),
    {
        match self {
            ResourceDimension::Buffer => 1,
            ResourceDimension::Texture1D => 2,
            ResourceDimension::Texture2D => 3,
            ResourceDimension::Texture3D => 4,
        }
    }

    pub fn from_code(v: u32) -> (r: Option<ResourceDimension>)
        ensures
            r == Self::spec_from_code(v),
    {
        if v == 1 {
            Some(ResourceDimension::Buffer)
        } else if v == 2 {
            Some(ResourceDimension::Texture1D)
        } else if v == 3 {
            Some(ResourceDimension::Texture2D)
        } else if v == 4 {
            Some(ResourceDimension::Texture3D)
        } else {
            None
        }
    }
}

impl PixelFormat {
    /// The format is named by its FourCC tag rather than by bit masks.
    pub open spec fn is_four_cc(self) -> bool {
        self.flags & DDPF_FOURCC != 0
    }

    /// The header extension follows the header.
    pub open spec fn is_dx10(self) -> bool {
        self.is_four_cc() && self.four_cc.0 == FOURCC_DX10
    }

    pub fn has_four_cc(&self) -> (r: bool)
        ensures
            r == self.is_four_cc(),
    {
        self.flags & DDPF_FOURCC != 0
    }

    pub fn announces_dx10(&self) -> (r: bool)
        ensures
            r == self.is_dx10(),
    {
        self.has_four_cc() && self.four_cc.0 == FOURCC_DX10
    }
}

impl Dx10Header {
    /// The checks that a reader applies to the header extension.
    pub open spec fn valid(self) -> bool {
        &&& known_dxgi_format(self.dxgi_format.0)
        &&& self.misc_flags2 & 7 <= 4
        &&& (self.resource_dimension == ResourceDimension::Texture3D ==> self.array_size == 1)
    }

    /// The five words of the header extension.
    pub open spec fn words(self) -> Seq<u32> {
        seq![
            self.dxgi_format.0,
            self.resource_dimension.code(),
            self.misc_flag,
            self.array_size,
            self.misc_flags2,
        ]
    }
}


/// The fixed part of the header that the first 124 bytes of `b` encode.
pub open spec fn fixed_header_of(b: Seq<u8>) -> Header {
    Header {
        flags: word_at(b, 4),
        height: word_at(b, 8),
        width: word_at(b, 12),
        pitch_or_linear_size: word_at(b, 16),
        depth: word_at(b, 20),
        mipmap_count: word_at(b, 24),
        reserved1: [
            word_at(b, 28),
            word_at(b, 32),
            word_at(b, 36),
            word_at(b, 40),
            word_at(b, 44),
            word_at(b, 48),
            word_at(b, 52),
            word_at(b, 56),
            word_at(b, 60),
            word_at(b, 64),
            word_at(b, 68),
        ],
        pixel_format: PixelFormat {
            size: word_at(b, 72),
            flags: word_at(b, 76),
            four_cc: FourCC(word_at(b, 80)),
            rgb_bit_count: word_at(b, 84),
            r_bit_mask: word_at(b, 88),
            g_bit_mask: word_at(b, 92),
            b_bit_mask: word_at(b, 96),
            a_bit_mask: word_at(b, 100),
        },
        caps: word_at(b, 104),
        caps2: word_at(b, 108),
        caps3: word_at(b, 112),
        caps4: word_at(b, 116),
        reserved2: word_at(b, 120),
        dx10: None,
    }
}

/// What a reader makes of the 20 bytes of a header extension that start at
/// byte `at`: the first failed check decides the error.
pub open spec fn spec_read_dx10(b: Seq<u8>, at: int) -> Result<Dx10Header, HeaderError> {
    let dxgi = word_at(b, at);
    let dimension = word_at(b, at + 4);
    let misc_flag = word_at(b, at + 8);
    let array_size = word_at(b, at + 12);
    let misc_flags2 = word_at(b, at + 16);
    if !known_dxgi_format(dxgi) {
        Err(HeaderError::InvalidDxgiFormat(dxgi))
    } else {
        match ResourceDimension::spec_from_code(dimension) {
            None => Err(HeaderError::InvalidResourceDimension(dimension)),
            Some(resource_dimension) => if misc_flags2 & 7 > 4 {
                Err(HeaderError::InvalidAlphaMode(misc_flags2 & 7))
            } else if resource_dimension == ResourceDimension::Texture3D && array_size != 1 {
                Err(HeaderError::InvalidArraySizeForTexture3D(array_size))
            } else {
                Ok(
                    Dx10Header {
                        dxgi_format: DxgiFormat(dxgi),
                        resource_dimension,
                        misc_flag,
                        array_size,
                        misc_flags2,
                    },
                )
            },
        }
    }
}

/// What a reader makes of input that starts with the header itself, without
/// magic bytes: the header and the number of bytes it takes, or the first
/// failed check.
pub open spec fn spec_read_header(b: Seq<u8>, options: ParseOptions) -> Result<
    (Header, nat),
    HeaderError,
> {
    if b.len() < 124 {
        Err(HeaderError::UnexpectedEof)
    } else if word_at(b, 0) != HEADER_SIZE {
        Err(HeaderError::InvalidHeaderSize(word_at(b, 0)))
    } else {
        let h = fixed_header_of(b);
        if !options.permissive_pixel_format_size && h.pixel_format.size != PIXEL_FORMAT_SIZE {
            Err(HeaderError::InvalidPixelFormatSize(h.pixel_format.size))
        } else if !h.pixel_format.is_four_cc() && !valid_rgb_bit_count(
            h.pixel_format.rgb_bit_count,
        ) {
            Err(HeaderError::InvalidRgbBitCount(h.pixel_format.rgb_bit_count))
        } else if !h.pixel_format.is_dx10() {
            Ok((h, 124nat))
        } else if b.len() < 144 {
            Err(HeaderError::UnexpectedEof)
        } else {
            match spec_read_dx10(b, 124) {
                Err(e) => Err(e),
                Ok(d) => Ok((Header { dx10: Some(d), ..h }, 144nat)),
            }
        }
    }
}

/// What a reader makes of `bytes` under `options`.
pub open spec fn spec_read(bytes: Seq<u8>, options: ParseOptions) -> Result<
    (Header, nat),
    HeaderError,
> {
    if options.file_magic == MagicBytes::Skip {
        spec_read_header(bytes, options)
    } else if bytes.len() < 4 {
        Err(HeaderError::UnexpectedEof)
    } else if bytes[0] != 0x44 || bytes[1] != 0x44 || bytes[2] != 0x53 || bytes[3] != 0x20 {
        Err(HeaderError::InvalidMagicBytes([bytes[0], bytes[1], bytes[2], bytes[3]]))
    } else {
        match spec_read_header(bytes.skip(4), options) {
            Err(e) => Err(e),
            Ok((h, n)) => Ok((h, n + 4)),
        }
    }
}

/// Reads the little-endian word that starts at byte `at`.
fn read_word(b: &[u8], at: usize) -> (v: u32)
    requires
        at + 4 <= b.len(),
    ensures
        v == word_at(b@, at as int),
{
    reveal(word_at);
    b[at] as u32 + 256 * (b[at + 1] as u32) + 65536 * (b[at + 2] as u32) + 16777216 * (b[at
        + 3] as u32)
}

/// Appends the little-endian encoding of `v`.
fn write_word(out: &mut Vec<u8>, v: u32)
    ensures
        final(out)@ == old(out)@ + words_bytes(seq![v]),
{
    reveal(byte_of);
    out.push((v % 256) as u8);
    out.push((v / 256 % 256) as u8);
    out.push((v / 65536 % 256) as u8);
    out.push((v / 16777216) as u8);
    assert(final(out)@ =~= old(out)@ + words_bytes(seq![v]));
}

/// A word is the word that its encoding holds.
pub proof fn lemma_word_round_trip(ws: Seq<u32>, i: int)
    requires
        0 <= i < ws.len(),
    ensures
        word_at(words_bytes(ws), 4 * i) == ws[i],
{
    reveal(word_at);
    reveal(byte_of);
    let b = words_bytes(ws);
    assert(b[4 * i] == byte_of(ws[i], 0));
    assert(b[4 * i + 1] == byte_of(ws[i], 1));
    assert(b[4 * i + 2] == byte_of(ws[i], 2));
    assert(b[4 * i + 3] == byte_of(ws[i], 3));
}

/// Four bytes are the encoding of the word that they hold.
pub proof fn lemma_bytes_round_trip(b: Seq<u8>, at: int, k: int)
    requires
        0 <= at,
        at + 4 <= b.len(),
        0 <= k < 4,
    ensures
        byte_of(word_at(b, at), k) == b[at + k],
{
    reveal(word_at);
    reveal(byte_of);
    lemma_split_word(b[at] as int, b[at + 1] as int, b[at + 2] as int, b[at + 3] as int);
}

/// The four base-256 digits of a number are found again by division.
pub proof fn lemma_split_word(b0: int, b1: int, b2: int, b3: int)
    requires
        0 <= b0 < 256,
        0 <= b1 < 256,
        0 <= b2 < 256,
        0 <= b3 < 256,
    ensures
        ({
            let v = b0 + 256 * b1 + 65536 * b2 + 16777216 * b3;
            &&& 0 <= v < 0x1_0000_0000
            &&& v % 256 == b0
            &&& v / 256 % 256 == b1
            &&& v / 65536 % 256 == b2
            &&& v / 16777216 == b3
        }),
{
    let v = b0 + 256 * b1 + 65536 * b2 + 16777216 * b3;
    let v1 = b1 + 256 * b2 + 65536 * b3;
    let v2 = b2 + 256 * b3;
    assert(v == 256 * v1 + b0);
    assert(v / 256 == v1 && v % 256 == b0);
    assert(v1 == 256 * v2 + b1);
    assert(v1 / 256 == v2 && v1 % 256 == b1);
    assert(v == 65536 * v2 + (256 * b1 + b0));
    assert(v / 65536 == v2);
    assert(v2 / 256 == b3 && v2 % 256 == b2);
    assert(v == 16777216 * b3 + (65536 * b2 + 256 * b1 + b0));
    assert(v / 16777216 == b3);
}

impl Header {
    /// The words of the header in file order, the size field first.
    pub open spec fn words(self) -> Seq<u32> {
        seq![
            HEADER_SIZE,
            self.flags,
            self.height,
            self.width,
            self.pitch_or_linear_size,
            self.depth,
            self.mipmap_count,
        ] + self.reserved1@ + seq![
            self.pixel_format.size,
            self.pixel_format.flags,
            self.pixel_format.four_cc.0,
            self.pixel_format.rgb_bit_count,
            self.pixel_format.r_bit_mask,
            self.pixel_format.g_bit_mask,
            self.pixel_format.b_bit_mask,
            self.pixel_format.a_bit_mask,
            self.caps,
            self.caps2,
            self.caps3,
            self.caps4,
            self.reserved2,
        ] + match self.dx10 {
            Some(d) => d.words(),
            None => Seq::<u32>::empty(),
        }
    }

    /// The byte encoding of the header, magic bytes included.
    pub open spec fn bytes(self) -> Seq<u8> {
        magic_bytes() + words_bytes(self.words())
    }

    /// The length of the byte encoding, magic bytes included.
    pub open spec fn byte_len(self) -> nat {
        if self.dx10 is Some {
            148
        } else {
            128
        }
    }

    /// The checks that a reader applies under `options`, stated of the
    /// header itself.
    pub open spec fn accepted(self, options: ParseOptions) -> bool {
        &&& options.permissive_pixel_format_size || self.pixel_format.size == PIXEL_FORMAT_SIZE
        &&& self.pixel_format.is_four_cc() || valid_rgb_bit_count(
            self.pixel_format.rgb_bit_count,
        )
        &&& self.dx10 is Some <==> self.pixel_format.is_dx10()
        &&& self.dx10 matches Some(d) ==> d.valid()
    }
}


/// The encoding of a sequence of words grows by the encoding of a word
/// that is added at its end.
pub proof fn lemma_words_bytes_push(ws: Seq<u32>, v: u32)
    ensures
        words_bytes(ws.push(v)) == words_bytes(ws) + words_bytes(seq![v]),
{
    let l = words_bytes(ws.push(v));
    let r = words_bytes(ws) + words_bytes(seq![v]);
    assert(l.len() == r.len());
    assert forall|j: int| 0 <= j < l.len() implies l[j] == r[j] by {
        if j < 4 * ws.len() {
            assert(ws.push(v)[j / 4] == ws[j / 4]);
        } else {
            let k = j - 4 * ws.len();
            assert(j / 4 == ws.len());
            assert(j % 4 == k);
            assert(k / 4 == 0);
            assert(k % 4 == k);
            assert(r[j] == words_bytes(seq![v])[k]);
        }
    }
    assert(l =~= r);
}

/// Appends the little-endian encoding of each word of `ws`.
fn write_words(out: &mut Vec<u8>, ws: &Vec<u32>)
    ensures
        final(out)@ == old(out)@ + words_bytes(ws@),
{
    let mut i: usize = 0;
    assert(words_bytes(ws@.take(0)) =~= Seq::<u8>::empty());
    assert(out@ =~= old(out)@ + words_bytes(ws@.take(0)));
    while i < ws.len()
        invariant
            i <= ws.len(),
            out@ == old(out)@ + words_bytes(ws@.take(i as int)),
        decreases ws.len() - i,
    {
        let ghost before = out@;
        write_word(out, ws[i]);
        proof {
            lemma_words_bytes_push(ws@.take(i as int), ws@[i as int]);
            assert(ws@.take(i as int).push(ws@[i as int]) =~= ws@.take(i + 1));
            assert(out@ =~= old(out)@ + words_bytes(ws@.take(i + 1)));
        }
        i = i + 1;
    }
    assert(ws@.take(ws.len() as int) =~= ws@);
}

/// Reads a header extension from the 20 bytes that start at byte `at`.
fn read_dx10(b: &[u8], at: usize) -> (r: Result<Dx10Header, HeaderError>)
    requires
        at + 20 <= b.len(),
    ensures
        r == spec_read_dx10(b@, at as int),
{
    let dxgi = read_word(b, at);
    let dimension = read_word(b, at + 4);
    let misc_flag = read_word(b, at + 8);
    let array_size = read_word(b, at + 12);
    let misc_flags2 = read_word(b, at + 16);
    if !(dxgi <= 115 || (130 <= dxgi && dxgi <= 132) || (189 <= dxgi && dxgi <= 191)) {
        return Err(HeaderError::InvalidDxgiFormat(dxgi));
    }
    match ResourceDimension::from_code(dimension) {
        None => Err(HeaderError::InvalidResourceDimension(dimension)),
        Some(resource_dimension) => {
            if misc_flags2 & 7 > 4 {
                Err(HeaderError::InvalidAlphaMode(misc_flags2 & 7))
            } else if resource_dimension == ResourceDimension::Texture3D && array_size != 1 {
                Err(HeaderError::InvalidArraySizeForTexture3D(array_size))
            } else {
                Ok(
                    Dx10Header {
                        dxgi_format: DxgiFormat(dxgi),
                        resource_dimension,
                        misc_flag,
                        array_size,
                        misc_flags2,
                    },
                )
            }
        },
    }
}

/// Reads a header from input that starts with the header itself.
fn read_header(b: &[u8], options: &ParseOptions) -> (r: Result<(Header, usize), HeaderError>)
    ensures
        match r {
            Ok((h, n)) => spec_read_header(b@, *options) == Ok::<(Header, nat), HeaderError>(
                (h, n as nat),
            ),
            Err(e) => spec_read_header(b@, *options) == Err::<(Header, nat), HeaderError>(e),
        },
{
    if b.len() < 124 {
        return Err(HeaderError::UnexpectedEof);
    }
    let size = read_word(b, 0);
    if size != HEADER_SIZE {
        return Err(HeaderError::InvalidHeaderSize(size));
    }
    let h = Header {
        flags: read_word(b, 4),
        height: read_word(b, 8),
        width: read_word(b, 12),
        pitch_or_linear_size: read_word(b, 16),
        depth: read_word(b, 20),
        mipmap_count: read_word(b, 24),
        reserved1: [
            read_word(b, 28),
            read_word(b, 32),
            read_word(b, 36),
            read_word(b, 40),
            read_word(b, 44),
            read_word(b, 48),
            read_word(b, 52),
            read_word(b, 56),
            read_word(b, 60),
            read_word(b, 64),
            read_word(b, 68),
        ],
        pixel_format: PixelFormat {
            size: read_word(b, 72),
            flags: read_word(b, 76),
            four_cc: FourCC(read_word(b, 80)),
            rgb_bit_count: read_word(b, 84),
            r_bit_mask: read_word(b, 88),
            g_bit_mask: read_word(b, 92),
            b_bit_mask: read_word(b, 96),
            a_bit_mask: read_word(b, 100),
        },
        caps: read_word(b, 104),
        caps2: read_word(b, 108),
        caps3: read_word(b, 112),
        caps4: read_word(b, 116),
        reserved2: read_word(b, 120),
        dx10: None,
    };
    assert(h.reserved1 =~= fixed_header_of(b@).reserved1);
    assert(h == fixed_header_of(b@));
    if !options.permissive_pixel_format_size && h.pixel_format.size != PIXEL_FORMAT_SIZE {
        return Err(HeaderError::InvalidPixelFormatSize(h.pixel_format.size));
    }
    let bits = h.pixel_format.rgb_bit_count;
    if !h.pixel_format.has_four_cc() && !(bits == 8 || bits == 16 || bits == 24 || bits == 32) {
        return Err(HeaderError::InvalidRgbBitCount(bits));
    }
    if !h.pixel_format.announces_dx10() {
        return Ok((h, 124));
    }
    if b.len() < 144 {
        return Err(HeaderError::UnexpectedEof);
    }
    match read_dx10(b, 124) {
        Err(e) => Err(e),
        Ok(d) => {
            let mut full = h;
            full.dx10 = Some(d);
            Ok((full, 144))
        },
    }
}

impl Header {
    /// Reads a header from the start of `bytes` and says how many bytes it
    /// takes. Bytes after the header are not looked at.
    pub fn read(bytes: &[u8], options: &ParseOptions) -> (r: Result<(Header, usize), HeaderError>)
        ensures
            match r {
                Ok((h, n)) => spec_read(bytes@, *options) == Ok::<(Header, nat), HeaderError>(
                    (h, n as nat),
                ),
                Err(e) => spec_read(bytes@, *options) == Err::<(Header, nat), HeaderError>(e),
            },
    {
        match options.file_magic {
            MagicBytes::Skip => read_header(bytes, options),
            MagicBytes::Required => {
                if bytes.len() < 4 {
                    return Err(HeaderError::UnexpectedEof);
                }
                if bytes[0] != 0x44 || bytes[1] != 0x44 || bytes[2] != 0x53 || bytes[3] != 0x20 {
                    let found = [bytes[0], bytes[1], bytes[2], bytes[3]];
                    assert(found =~= [bytes@[0], bytes@[1], bytes@[2], bytes@[3]]);
                    return Err(HeaderError::InvalidMagicBytes(found));
                }
                let body = slice_subrange(bytes, 4, bytes.len());
                assert(body@ =~= bytes@.skip(4));
                match read_header(body, options) {
                    Err(e) => Err(e),
                    Ok((h, n)) => Ok((h, n + 4)),
                }
            },
        }
    }

    /// The number of bytes that the header takes in a file, magic bytes
    /// included.
    pub fn len(&self) -> (n: usize)
        ensures
            n == self.byte_len(),
    {
        if self.dx10.is_some() {
            148
        } else {
            128
        }
    }

    /// The words of the header in file order.
    pub fn to_words(&self) -> (ws: Vec<u32>)
        ensures
            ws@ == self.words(),
    {
        let mut ws: Vec<u32> = Vec::new();
        ws.push(HEADER_SIZE);
        ws.push(self.flags);
        ws.push(self.height);
        ws.push(self.width);
        ws.push(self.pitch_or_linear_size);
        ws.push(self.depth);
        ws.push(self.mipmap_count);
        let ghost head = ws@;
        let mut i: usize = 0;
        while i < 11
            invariant
                i <= 11,
                ws@ == head + self.reserved1@.take(i as int),
            decreases 11 - i,
        {
            ws.push(self.reserved1[i]);
            assert(ws@ =~= head + self.reserved1@.take(i + 1));
            i = i + 1;
        }
        assert(self.reserved1@.take(11) =~= self.reserved1@);
        ws.push(self.pixel_format.size);
        ws.push(self.pixel_format.flags);
        ws.push(self.pixel_format.four_cc.0);
        ws.push(self.pixel_format.rgb_bit_count);
        ws.push(self.pixel_format.r_bit_mask);
        ws.push(self.pixel_format.g_bit_mask);
        ws.push(self.pixel_format.b_bit_mask);
        ws.push(self.pixel_format.a_bit_mask);
        ws.push(self.caps);
        ws.push(self.caps2);
        ws.push(self.caps3);
        ws.push(self.caps4);
        ws.push(self.reserved2);
        match self.dx10 {
            Some(d) => {
                ws.push(d.dxgi_format.0);
                ws.push(d.resource_dimension.to_code());
                ws.push(d.misc_flag);
                ws.push(d.array_size);
                ws.push(d.misc_flags2);
            },
            None => {},
        }
        assert(ws@ =~= self.words());
        ws
    }

    /// Appends the byte encoding of the header, magic bytes first.
    pub fn write(&self, out: &mut Vec<u8>)
        ensures
            final(out)@ == old(out)@ + self.bytes(),
    {
        out.push(0x44);
        out.push(0x44);
        out.push(0x53);
        out.push(0x20);
        assert(out@ =~= old(out)@ + magic_bytes());
        let ws = self.to_words();
        write_words(out, &ws);
        assert(final(out)@ =~= old(out)@ + self.bytes());
    }
}

/// The words of a header that was read are the words of the input.
proof fn lemma_words_of_read(b: Seq<u8>, options: ParseOptions)
    requires
        spec_read_header(b, options) is Ok,
    ensures
        ({
            let (h, n) = spec_read_header(b, options)->Ok_0;
            &&& h.accepted(options)
            &&& n == h.byte_len() - 4
            &&& n <= b.len()
            &&& h.words().len() * 4 == n
            &&& forall|i: int| 0 <= i < h.words().len() ==> h.words()[i] == word_at(b, 4 * i)
        }),
{
    let (h, n) = spec_read_header(b, options)->Ok_0;
    let ws = h.words();
    let f = fixed_header_of(b);
    assert(h.reserved1 == f.reserved1);
    assert(forall|k: int| 0 <= k < 11 ==> h.reserved1@[k] == word_at(b, 28 + 4 * k));
    if h.dx10 is Some {
        assert(spec_read_dx10(b, 124) is Ok);
        let d = h.dx10->Some_0;
        assert(d == spec_read_dx10(b, 124)->Ok_0);
        assert(d.words().len() == 5);
        assert(ws.len() == 36);
    } else {
        assert(ws.len() == 31);
    }
    assert forall|i: int| 0 <= i < ws.len() implies ws[i] == word_at(b, 4 * i) by {
        if i < 7 {
        } else if i < 18 {
            assert(ws[i] == h.reserved1@[i - 7]);
        } else if i < 31 {
        } else {
            assert(ws[i] == h.dx10->Some_0.words()[i - 31]);
        }
    }
}

/// Reading what `write` wrote gives the header back, for every header that
/// a reader accepts.
pub proof fn lemma_read_inverts_write(h: Header, options: ParseOptions)
    requires
        h.accepted(options),
    ensures
        options.file_magic == MagicBytes::Required ==> spec_read(h.bytes(), options) == Ok::<
            (Header, nat),
            HeaderError,
        >((h, h.byte_len())),
        options.file_magic == MagicBytes::Skip ==> spec_read(h.bytes().skip(4), options) == Ok::<
            (Header, nat),
            HeaderError,
        >((h, (h.byte_len() - 4) as nat)),
{
    let ws = h.words();
    let b = words_bytes(ws);
    assert(h.bytes().skip(4) =~= b);
    assert(ws.len() == if h.dx10 is Some {
        36nat
    } else {
        31nat
    });
    assert forall|at: int| 0 <= at < 4 * ws.len() && at % 4 == 0 implies #[trigger] word_at(b, at)
        == ws[at / 4] by {
        lemma_word_round_trip(ws, at / 4);
    }
    let f = fixed_header_of(b);
    assert forall|k: int| 0 <= k < 11 implies f.reserved1@[k] == h.reserved1@[k] by {
        assert(ws[k + 7] == h.reserved1@[k]);
        assert(f.reserved1@[k] == word_at(b, 28 + 4 * k));
    }
    assert(f.reserved1 =~= h.reserved1);
    assert(f == Header { dx10: None, ..h });
    match h.dx10 {
        Some(d) => {
            assert(ws[31] == d.words()[0]);
            assert(ws[32] == d.words()[1]);
            assert(ws[33] == d.words()[2]);
            assert(ws[34] == d.words()[3]);
            assert(ws[35] == d.words()[4]);
            assert(spec_read_dx10(b, 124) == Ok::<Dx10Header, HeaderError>(d));
        },
        None => {},
    }
    assert(spec_read_header(b, options) == Ok::<(Header, nat), HeaderError>(
        (h, (h.byte_len() - 4) as nat),
    ));
}

/// Writing a header that was read gives back, byte for byte, the input
/// that it was read from.
pub proof fn lemma_write_inverts_read(bytes: Seq<u8>, options: ParseOptions)
    requires
        spec_read(bytes, options) is Ok,
    ensures
        ({
            let (h, n) = spec_read(bytes, options)->Ok_0;
            &&& h.accepted(options)
            &&& n <= bytes.len()
            &&& options.file_magic == MagicBytes::Required ==> n == h.byte_len() && h.bytes()
                == bytes.take(n as int)
            &&& options.file_magic == MagicBytes::Skip ==> n == h.byte_len() - 4 && h.bytes()
                == magic_bytes() + bytes.take(n as int)
        }),
{
    let (h, n) = spec_read(bytes, options)->Ok_0;
    let body = if options.file_magic == MagicBytes::Skip {
        bytes
    } else {
        bytes.skip(4)
    };
    lemma_words_of_read(body, options);
    let m = (h.byte_len() - 4) as nat;
    let ws = h.words();
    let w = words_bytes(ws);
    assert(w.len() == m);
    assert forall|j: int| 0 <= j < m implies w[j] == body[j] by {
        let i = j / 4;
        let k = j % 4;
        assert(ws[i] == word_at(body, 4 * i));
        lemma_bytes_round_trip(body, 4 * i, k);
    }
    assert(w =~= body.take(m as int));
    if options.file_magic == MagicBytes::Required {
        assert(magic_bytes() =~= bytes.take(4));
        assert(h.bytes() =~= bytes.take(n as int));
    }
}


/// Header flags that every header carries: caps, height, width and pixel
/// format are in use.
pub const DDSD_REQUIRED: u32 = 0x1007;

/// Header flag: the mipmap count is in use.
pub const DDSD_MIPMAPCOUNT: u32 = 0x2_0000;

/// `caps` flag: the file holds a texture.
pub const DDSCAPS_TEXTURE: u32 = 0x1000;

/// `misc_flag` of the header extension: the array holds cube maps.
pub const DDS_MISC_TEXTURECUBE: u32 = 0x4;

impl Header {
    /// A header with a header extension, for one surface of the given
    /// extent in the DXGI format `format`: no mipmaps, an array of one.
    pub open spec fn spec_new_image(width: u32, height: u32, format: DxgiFormat) -> Header {
        Header {
            flags: DDSD_REQUIRED,
            height,
            width,
            pitch_or_linear_size: 0,
            depth: 0,
            mipmap_count: 1,
            reserved1: [0u32, 0u32, 0u32, 0u32, 0u32, 0u32, 0u32, 0u32, 0u32, 0u32, 0u32],
            pixel_format: PixelFormat {
                size: PIXEL_FORMAT_SIZE,
                flags: DDPF_FOURCC,
                four_cc: FourCC(FOURCC_DX10),
                rgb_bit_count: 0,
                r_bit_mask: 0,
                g_bit_mask: 0,
                b_bit_mask: 0,
                a_bit_mask: 0,
            },
            caps: DDSCAPS_TEXTURE,
            caps2: 0,
            caps3: 0,
            caps4: 0,
            reserved2: 0,
            dx10: Some(
                Dx10Header {
                    dxgi_format: format,
                    resource_dimension: ResourceDimension::Texture2D,
                    misc_flag: 0,
                    array_size: 1,
                    misc_flags2: 0,
                },
            ),
        }
    }

    /// A header for a texture of the given extent.
    pub fn new_image(width: u32, height: u32, format: DxgiFormat) -> (h: Header)
        ensures
            h == Self::spec_new_image(width, height, format),
    {
        let h = Header {
            flags: DDSD_REQUIRED,
            height,
            width,
            pitch_or_linear_size: 0,
            depth: 0,
            mipmap_count: 1,
            reserved1: [0u32, 0u32, 0u32, 0u32, 0u32, 0u32, 0u32, 0u32, 0u32, 0u32, 0u32],
            pixel_format: PixelFormat {
                size: PIXEL_FORMAT_SIZE,
                flags: DDPF_FOURCC,
                four_cc: FourCC(FOURCC_DX10),
                rgb_bit_count: 0,
                r_bit_mask: 0,
                g_bit_mask: 0,
                b_bit_mask: 0,
                a_bit_mask: 0,
            },
            caps: DDSCAPS_TEXTURE,
            caps2: 0,
            caps3: 0,
            caps4: 0,
            reserved2: 0,
            dx10: Some(
                Dx10Header {
                    dxgi_format: format,
                    resource_dimension: ResourceDimension::Texture2D,
                    misc_flag: 0,
                    array_size: 1,
                    misc_flags2: 0,
                },
            ),
        };
        assert(h.reserved1 =~= Self::spec_new_image(width, height, format).reserved1);
        h
    }

    /// A header for a cube map whose faces have the given extent: as for a
    /// texture, with all six faces declared.
    pub fn new_cube_map(width: u32, height: u32, format: DxgiFormat) -> (h: Header)
        ensures
            h == (Header {
                caps2: DDSCAPS2_CUBEMAP | DDSCAPS2_CUBEMAP_ALL_FACES,
                dx10: Some(
                    Dx10Header {
                        misc_flag: DDS_MISC_TEXTURECUBE,
                        ..Self::spec_new_image(width, height, format).dx10->Some_0
                    },
                ),
                ..Self::spec_new_image(width, height, format)
            }),
    {
        let mut h = Self::new_image(width, height, format);
        h.caps2 = DDSCAPS2_CUBEMAP | DDSCAPS2_CUBEMAP_ALL_FACES;
        h.dx10 = Some(
            Dx10Header {
                dxgi_format: format,
                resource_dimension: ResourceDimension::Texture2D,
                misc_flag: DDS_MISC_TEXTURECUBE,
                array_size: 1,
                misc_flags2: 0,
            },
        );
        h
    }

    /// A header for a volume of the given extent: as for a texture, with
    /// the depth in use and the volume declared.
    pub fn new_volume(width: u32, height: u32, depth: u32, format: DxgiFormat) -> (h: Header)
        ensures
            h == (Header {
                flags: DDSD_REQUIRED | DDSD_DEPTH,
                depth,
                caps2: DDSCAPS2_VOLUME,
                dx10: Some(
                    Dx10Header {
                        resource_dimension: ResourceDimension::Texture3D,
                        ..Self::spec_new_image(width, height, format).dx10->Some_0
                    },
                ),
                ..Self::spec_new_image(width, height, format)
            }),
    {
        let mut h = Self::new_image(width, height, format);
        h.flags = DDSD_REQUIRED | DDSD_DEPTH;
        h.depth = depth;
        h.caps2 = DDSCAPS2_VOLUME;
        h.dx10 = Some(
            Dx10Header {
                dxgi_format: format,
                resource_dimension: ResourceDimension::Texture3D,
                misc_flag: 0,
                array_size: 1,
                misc_flags2: 0,
            },
        );
        h
    }

    /// The header with another mipmap count, which it declares in use.
    pub fn with_mipmap_count(self, mipmap_count: u32) -> (h: Header)
        ensures
            h == (Header { flags: self.flags | DDSD_MIPMAPCOUNT, mipmap_count, ..self }),
    {
        let mut h = self;
        h.flags = self.flags | DDSD_MIPMAPCOUNT;
        h.mipmap_count = mipmap_count;
        h
    }

    /// The header with another array size, where it has a header
    /// extension; without one it stays as it is.
    pub fn with_array_size(self, array_size: u32) -> (h: Header)
        ensures
            h == (match self.dx10 {
                Some(d) => Header { dx10: Some(Dx10Header { array_size, ..d }), ..self },
                None => self,
            }),
    {
        match self.dx10 {
            Some(d) => {
                let mut h = self;
                h.dx10 = Some(
                    Dx10Header {
                        dxgi_format: d.dxgi_format,
                        resource_dimension: d.resource_dimension,
                        misc_flag: d.misc_flag,
                        array_size,
                        misc_flags2: d.misc_flags2,
                    },
                );
                h
            },
            None => self,
        }
    }

    /// The number of bytes that a reader needs to read the header of which
    /// `prefix` holds the first bytes: the bytes of the header without its
    /// extension, and where `prefix` holds those and they announce the
    /// extension, the bytes of the extension too.
    pub open spec fn spec_needed_len(prefix: Seq<u8>, options: ParseOptions) -> nat {
        let skip: nat = if options.file_magic == MagicBytes::Required {
            4
        } else {
            0
        };
        if prefix.len() >= skip + 124 && fixed_header_of(prefix.skip(skip as int)).pixel_format.is_dx10() {
            skip + 144
        } else {
            skip + 124
        }
    }

    /// Says how many bytes a reader has to hand to `read` for the header of
    /// which `prefix` holds the first bytes.
    pub fn needed_len(prefix: &[u8], options: &ParseOptions) -> (n: usize)
        ensures
            n == Self::spec_needed_len(prefix@, *options),
    {
        let skip: usize = match options.file_magic {
            MagicBytes::Required => 4,
            MagicBytes::Skip => 0,
        };
        if prefix.len() < skip + 124 {
            return skip + 124;
        }
        let flags: u32 = read_word(prefix, skip + 76);
        let four_cc: u32 = read_word(prefix, skip + 80);
        proof {
            reveal(word_at);
        }
        if flags & DDPF_FOURCC != 0 && four_cc == FOURCC_DX10 {
            skip + 144
        } else {
            skip + 124
        }
    }
}

} // verus!
