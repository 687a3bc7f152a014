//! BMP file header: its data model and the parser that reads it.
use vstd::prelude::*;

use crate::color_table::ColorTable;
use crate::ParseError;

verus! {

/// Length of the file header that precedes the DIB header.
pub const FILE_HEADER_LEN: usize = 14;

/// Length of a `BITMAPINFOHEADER`, which carries no channel masks.
pub const INFO_HEADER_LEN: u32 = 40;

/// Length of a V3 DIB header: the info header followed by four channel masks (R, G, B, A).
pub const V3_HEADER_LEN: u32 = 56;

/// Length of a `BITMAPV4HEADER`.
pub const V4_HEADER_LEN: u32 = 108;

/// Length of a `BITMAPV5HEADER`.
pub const V5_HEADER_LEN: u32 = 124;

/// Little-endian unsigned integer of two bytes starting at `off`.
pub open spec fn u16_le(b: Seq<u8>, off: int) -> int {
    b[off] as int + 256 * (b[off + 1] as int)
}

/// Little-endian unsigned integer of four bytes starting at `off`.
pub open spec fn u32_le(b: Seq<u8>, off: int) -> int {
    b[off] as int + 256 * (b[off + 1] as int) + 65536 * (b[off + 2] as int) + 16777216 * (
    b[off + 3] as int)
}

/// Reads a little-endian `u16` at byte offset `off`.
pub fn read_u16_le(b: &[u8], off: usize) -> (r: u16)
    requires
        off + 2 <= b@.len(),
    ensures
        r == u16_le(b@, off as int),
{
    b[off] as u16 + (b[off + 1] as u16) * 256
}

/// Reads a little-endian `u32` at byte offset `off`.
pub fn read_u32_le(b: &[u8], off: usize) -> (r: u32)
    requires
        off + 4 <= b@.len(),
    ensures
        r == u32_le(b@, off as int),
{
    b[off] as u32 + (b[off + 1] as u32) * 256 + (b[off + 2] as u32) * 65536 + (b[off
        + 3] as u32) * 16777216
}

/// Bits per pixel.
#[derive(Copy, Clone, Debug, PartialEq, Eq, Structural)]
pub enum Bpp {
    /// 1 bit per pixel.
    Bits1,
    /// 4 bits per pixel.
    Bits4,
    /// 8 bits per pixel.
    Bits8,
    /// 16 bits per pixel.
    Bits16,
    /// 24 bits per pixel.
    Bits24,
    /// 32 bits per pixel.
    Bits32,
}

/// The bit depth a BMP header field value stands for, if it is supported.
pub open spec fn bpp_of(bits: int) -> Option<Bpp> {
    if bits == 1 {
        Some(Bpp::Bits1)
    } else if bits == 4 {
        Some(Bpp::Bits4)
    } else if bits == 8 {
        Some(Bpp::Bits8)
    } else if bits == 16 {
        Some(Bpp::Bits16)
    } else if bits == 24 {
        Some(Bpp::Bits24)
    } else if bits == 32 {
        Some(Bpp::Bits32)
    } else {
        None
    }
}

impl Bpp {
    /// Number of bits per pixel.
    pub open spec fn spec_bits(self) -> u16 {
        match self {
            Bpp::Bits1 => 1,
            Bpp::Bits4 => 4,
            Bpp::Bits8 => 8,
            Bpp::Bits16 => 16,
            Bpp::Bits24 => 24,
            Bpp::Bits32 => 32,
        }
    }

    /// Returns the number of bits per pixel.
    #[verifier::when_used_as_spec(spec_bits)]
    pub fn bits(self) -> (r: u16)
        ensures
            r == self.spec_bits(),
    {
        match self {
            Bpp::Bits1 => 1,
            Bpp::Bits4 => 4,
            Bpp::Bits8 => 8,
            Bpp::Bits16 => 16,
            Bpp::Bits24 => 24,
            Bpp::Bits32 => 32,
        }
    }

    /// Bit depth of a header field value; `None` for unsupported depths.
    pub fn from_bits(bits: u16) -> (r: Option<Bpp>)
        ensures
            r == bpp_of(bits as int),
            r matches Some(b) ==> b.spec_bits() == bits,
    {
        match bits {
            1 => Some(Bpp::Bits1),
            4 => Some(Bpp::Bits4),
            8 => Some(Bpp::Bits8),
            16 => Some(Bpp::Bits16),
            24 => Some(Bpp::Bits24),
            32 => Some(Bpp::Bits32),
            _ => None,
        }
    }
}

/// Order in which the rows of the image are stored in the file.
#[derive(Copy, Clone, Debug, PartialEq, Eq, Structural)]
pub enum RowOrder {
    /// The first row in the file is the top row of the image.
    TopDown,
    /// The first row in the file is the bottom row of the image.
    BottomUp,
}

/// Channel masks of 16 and 32 bit images.
#[derive(Copy, Clone, Debug, PartialEq, Eq, Structural)]
pub struct ChannelMasks {
    /// Red channel mask.
    pub red: u32,
    /// Green channel mask.
    pub green: u32,
    /// Blue channel mask.
    pub blue: u32,
    /// Alpha channel mask.
    pub alpha: u32,
}

impl ChannelMasks {
    /// Masks of 5 bits red, 5 bits green and 5 bits blue.
    pub open spec fn spec_rgb555() -> ChannelMasks {
        ChannelMasks { red: 0x7c00, green: 0x03e0, blue: 0x001f, alpha: 0 }
    }

    /// Masks of 5 bits red, 6 bits green and 5 bits blue.
    pub open spec fn spec_rgb565() -> ChannelMasks {
        ChannelMasks { red: 0xf800, green: 0x07e0, blue: 0x001f, alpha: 0 }
    }

    /// Masks of 8 bits red, 8 bits green and 8 bits blue.
    pub open spec fn spec_rgb888() -> ChannelMasks {
        ChannelMasks { red: 0xff0000, green: 0x00ff00, blue: 0x0000ff, alpha: 0 }
    }

    /// Returns the RGB555 masks.
    pub fn rgb555() -> (r: ChannelMasks)
        ensures
            r == Self::spec_rgb555(),
    {
        ChannelMasks { red: 0x7c00, green: 0x03e0, blue: 0x001f, alpha: 0 }
    }

    /// Returns the RGB565 masks.
    pub fn rgb565() -> (r: ChannelMasks)
        ensures
            r == Self::spec_rgb565(),
    {
        ChannelMasks { red: 0xf800, green: 0x07e0, blue: 0x001f, alpha: 0 }
    }

    /// Returns the RGB888 masks.
    pub fn rgb888() -> (r: ChannelMasks)
        ensures
            r == Self::spec_rgb888(),
    {
        ChannelMasks { red: 0xff0000, green: 0x00ff00, blue: 0x0000ff, alpha: 0 }
    }
}

/// Width and height of an image, in pixels.
#[derive(Copy, Clone, Debug, PartialEq, Eq, Structural)]
pub struct Size {
    /// Width.
    pub width: u32,
    /// Height.
    pub height: u32,
}

impl Size {
    /// Creates a size.
    pub fn new(width: u32, height: u32) -> (r: Size)
        ensures
            r.width == width,
            r.height == height,
    {
        Size { width, height }
    }
}

/// BMP header information.
#[derive(Copy, Clone, Debug, PartialEq, Eq, Structural)]
pub struct Header {
    /// Total file size in bytes, as declared by the file.
    pub file_size: u32,
    /// Byte offset from the beginning of the file at which the image data starts.
    pub image_data_start: usize,
    /// Bits per pixel.
    pub bpp: Bpp,
    /// Image size in pixels.
    pub image_size: Size,
    /// Length of the image data in bytes: bytes per row times height.
    pub image_data_len: usize,
    /// Bit masks for the color channels, if the header carries them.
    pub channel_masks: Option<ChannelMasks>,
    /// Row order of the image data within the file.
    pub row_order: RowOrder,
}

/// Bytes of one stored row: `width * bits` rounded up to whole bytes, then to a multiple of 4.
pub open spec fn row_len(width: int, bits: int) -> int {
    ((width * bits + 7) / 8 + 3) / 4 * 4
}

impl Header {
    /// Bytes of one stored row, padding included.
    pub open spec fn spec_bytes_per_row(self) -> int {
        row_len(self.image_size.width as int, self.bpp.spec_bits() as int)
    }

    /// Returns the number of bytes of one stored row, padding included.
    pub fn bytes_per_row(&self) -> (r: usize)
        requires
            self.spec_bytes_per_row() <= usize::MAX,
        ensures
            r == self.spec_bytes_per_row(),
    {
        let bits = self.bpp.bits() as u64;
        let width = self.image_size.width as u64;
        assert(width * bits <= 0xffff_ffff * 32) by (nonlinear_arith)
            requires
                width <= 0xffff_ffff,
                bits <= 32,
        ;
        (((width * bits + 7) / 8 + 3) / 4 * 4) as usize
    }
}

/// Whether a DIB header length is one this parser accepts.
pub open spec fn supported_header_len(len: int) -> bool {
    len == INFO_HEADER_LEN || len == V3_HEADER_LEN || len == V4_HEADER_LEN || len
        == V5_HEADER_LEN
}

/// What parsing the header gives on the input bytes `input`: the header and, for indexed
/// images, the bytes of the color table.
///
/// Only the bytes before the declared start of the image data are read; the whole declared DIB
/// header must lie among them.
pub open spec fn parse_spec(input: Seq<u8>) -> Result<(Header, Option<Seq<u8>>), ParseError> {
    if input.len() < 2 {
        Err(ParseError::UnexpectedEndOfFile)
    } else if input[0] != 0x42u8 || input[1] != 0x4du8 {
        Err(ParseError::InvalidFileSignature)
    } else if input.len() < FILE_HEADER_LEN {
        Err(ParseError::UnexpectedEndOfFile)
    } else {
        let start = u32_le(input, 10);
        let limit = if start < input.len() {
            start
        } else {
            input.len() as int
        };
        parse_fields(input.subrange(0, limit))
    }
}

/// Header parsing on the bytes before the image data, whose signature was checked.
pub open spec fn parse_fields(b: Seq<u8>) -> Result<(Header, Option<Seq<u8>>), ParseError> {
    if b.len() < FILE_HEADER_LEN + 4 {
        Err(ParseError::UnexpectedEndOfFile)
    } else if !supported_header_len(u32_le(b, 14)) {
        Err(ParseError::UnsupportedHeaderLength(u32_le(b, 14) as u32))
    } else if b.len() < FILE_HEADER_LEN + u32_le(b, 14) {
        Err(ParseError::UnexpectedEndOfFile)
    } else {
        let header_len = u32_le(b, 14);
        let raw_width = u32_le(b, 18);
        let raw_height = u32_le(b, 22);
        let bits = u16_le(b, 28);
        let compression = u32_le(b, 30);
        let colors_used = u32_le(b, 46);
        if bpp_of(bits) is None {
            Err(ParseError::UnsupportedBpp(bits as u16))
        } else if compression != 0 {
            Err(ParseError::UnsupportedCompressionMethod(compression as u32))
        } else if raw_width >= 0x8000_0000 || raw_height == 0x8000_0000 {
            Err(ParseError::Header)
        } else {
            let height = if raw_height >= 0x8000_0000 {
                0x1_0000_0000 - raw_height
            } else {
                raw_height
            };
            let data_len = row_len(raw_width, bits) * height;
            if row_len(raw_width, bits) > usize::MAX || data_len > usize::MAX {
                Err(ParseError::UnexpectedEndOfFile)
            } else {
                let header = Header {
                    file_size: u32_le(b, 2) as u32,
                    image_data_start: u32_le(b, 10) as usize,
                    bpp: bpp_of(bits)->Some_0,
                    image_size: Size { width: raw_width as u32, height: height as u32 },
                    image_data_len: data_len as usize,
                    channel_masks: if header_len >= V3_HEADER_LEN {
                        Some(
                            ChannelMasks {
                                red: u32_le(b, 54) as u32,
                                green: u32_le(b, 58) as u32,
                                blue: u32_le(b, 62) as u32,
                                alpha: u32_le(b, 66) as u32,
                            },
                        )
                    } else {
                        None
                    },
                    row_order: if raw_height >= 0x8000_0000 {
                        RowOrder::TopDown
                    } else {
                        RowOrder::BottomUp
                    },
                };
                if bits <= 8 {
                    let table_start = FILE_HEADER_LEN + header_len;
                    if colors_used == 0 || table_start + 4 * colors_used > b.len() {
                        Err(ParseError::MissingColorTable)
                    } else {
                        Ok((header, Some(b.subrange(table_start, table_start + 4 * colors_used))))
                    }
                } else {
                    Ok((header, None))
                }
            }
        }
    }
}

/// What every parsed header satisfies.
pub open spec fn header_wf(h: Header) -> bool {
    &&& h.image_size.width < 0x8000_0000
    &&& h.image_size.height < 0x8000_0000
    &&& h.spec_bytes_per_row() <= usize::MAX
    &&& h.image_data_len == h.spec_bytes_per_row() * h.image_size.height
    &&& h.image_data_start <= u32::MAX
}

/// A parsed header is well formed.
pub proof fn lemma_parsed_header_wf(input: Seq<u8>)
    requires
        parse_spec(input) is Ok,
    ensures
        header_wf(parse_spec(input)->Ok_0.0),
{
}

/// The bytes of a color table, if there is one.
pub open spec fn table_view(t: Option<ColorTable>) -> Option<Seq<u8>> {
    match t {
        Some(t) => Some(t@),
        None => None,
    }
}

/// Result of the parser seen through the views of its parts.
pub open spec fn parse_view(r: Result<(Header, Option<ColorTable>), ParseError>) -> Result<
    (Header, Option<Seq<u8>>),
    ParseError,
> {
    match r {
        Ok((h, t)) => Ok((h, table_view(t))),
        Err(e) => Err(e),
    }
}

impl Header {
    /// Parses the header at the start of `input` and, for indexed images, the color table that
    /// follows it.
    ///
    /// Only the bytes before the declared start of the image data are read, so `input` may be
    /// the whole file or just that prefix.
    pub fn parse<'a>(input: &'a [u8]) -> (r: Result<(Header, Option<ColorTable<'a>>), ParseError>)
        ensures
            parse_view(r) == parse_spec(input@),
    {
        if input.len() < 2 {
            return Err(ParseError::UnexpectedEndOfFile);
        }
        if input[0] != 0x42u8 || input[1] != 0x4du8 {
            return Err(ParseError::InvalidFileSignature);
        }
        if input.len() < FILE_HEADER_LEN {
            return Err(ParseError::UnexpectedEndOfFile);
        }
        let start = read_u32_le(input, 10) as usize;
        let limit = if start < input.len() {
            start
        } else {
            input.len()
        };
        let b = &input[0..limit];
        assert(b@ == input@.subrange(0, limit as int));
        Self::parse_fields(b)
    }

    fn parse_fields<'a>(b: &'a [u8]) -> (r: Result<(Header, Option<ColorTable<'a>>), ParseError>)
        ensures
            parse_view(r) == parse_fields(b@),
    {
        if b.len() < FILE_HEADER_LEN + 4 {
            return Err(ParseError::UnexpectedEndOfFile);
        }
        let header_len = read_u32_le(b, 14);
        if !(header_len == INFO_HEADER_LEN || header_len == V3_HEADER_LEN || header_len
            == V4_HEADER_LEN || header_len == V5_HEADER_LEN) {
            return Err(ParseError::UnsupportedHeaderLength(header_len));
        }
        if b.len() < FILE_HEADER_LEN + header_len as usize {
            return Err(ParseError::UnexpectedEndOfFile);
        }
        let file_size = read_u32_le(b, 2);
        let image_data_start = read_u32_le(b, 10);
        let raw_width = read_u32_le(b, 18);
        let raw_height = read_u32_le(b, 22);
        let bits = read_u16_le(b, 28);
        let compression = read_u32_le(b, 30);
        let colors_used = read_u32_le(b, 46);
        let bpp = match Bpp::from_bits(bits) {
            Some(bpp) => bpp,
            None => {
                return Err(ParseError::UnsupportedBpp(bits));
            },
        };
        if compression != 0 {
            return Err(ParseError::UnsupportedCompressionMethod(compression));
        }
        if raw_width >= 0x8000_0000 || raw_height == 0x8000_0000 {
            return Err(ParseError::Header);
        }
        let (height, row_order) = if raw_height >= 0x8000_0000 {
            ((0xffff_ffffu32 - raw_height) + 1, RowOrder::TopDown)
        } else {
            (raw_height, RowOrder::BottomUp)
        };
        let width = raw_width as u64;
        let bits64 = bits as u64;
        assert(width * bits64 <= 0x8000_0000 * 32) by (nonlinear_arith)
            requires
                width < 0x8000_0000,
                bits64 <= 32,
        ;
        let row = ((width * bits64 + 7) / 8 + 3) / 4 * 4;
        assert(row < 0x2_0000_0000);
        assert(row * (height as u64) < 0x2_0000_0000 * 0x8000_0000) by (nonlinear_arith)
            requires
                row < 0x2_0000_0000,
                height <= 0x8000_0000,
        ;
        let data_len = row * height as u64;
        if row > usize::MAX as u64 || data_len > usize::MAX as u64 {
            return Err(ParseError::UnexpectedEndOfFile);
        }
        let channel_masks = if header_len >= V3_HEADER_LEN {
            Some(
                ChannelMasks {
                    red: read_u32_le(b, 54),
                    green: read_u32_le(b, 58),
                    blue: read_u32_le(b, 62),
                    alpha: read_u32_le(b, 66),
                },
            )
        } else {
            None
        };
        let header = Header {
            file_size,
            image_data_start: image_data_start as usize,
            bpp,
            image_size: Size { width: raw_width, height },
            image_data_len: data_len as usize,
            channel_masks,
            row_order,
        };
        if bits <= 8 {
            let table_start = FILE_HEADER_LEN + header_len as usize;
            if colors_used == 0 || table_start > b.len() || (colors_used as usize) > (b.len()
                - table_start) / 4 {
                return Err(ParseError::MissingColorTable);
            }
            let table_end = table_start + 4 * colors_used as usize;
            let table = &b[table_start..table_end];
            assert(table@ == b@.subrange(table_start as int, table_end as int));
            Ok((header, Some(ColorTable::new(table))))
        } else {
            Ok((header, None))
        }
    }
}

} // verus!
