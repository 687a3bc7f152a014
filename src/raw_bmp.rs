//! Low-level access to a BMP image: header, color table and raw pixels.
use vstd::prelude::*;

use crate::color_table::ColorTable;
use crate::header::{
    header_wf, lemma_parsed_header_wf, parse_spec, read_u32_le, table_view, u32_le, Bpp,
    ChannelMasks, Header, FILE_HEADER_LEN,
};
use crate::raw_pixels::{image_pixels, ChunkReaderWrapper, RawPixels};
use crate::reader::{
    lemma_region_in_source, source_region, BmpReader, BmpReaderChunkIterator, BmpReaderError,
    ReaderChunks, SliceReader, SliceReaderIterator,
};
use crate::ParseError;

verus! {

/// Pixel encoding of an image.
#[derive(Copy, Clone, Debug, PartialEq, Eq, Hash, Structural)]
pub enum ColorType {
    /// 1-bit palette indices.
    Index1,
    /// 4-bit palette indices.
    Index4,
    /// 8-bit palette indices.
    Index8,
    /// 16 bits: 5 bits red, 5 bits green, 5 bits blue.
    Rgb555,
    /// 16 bits: 5 bits red, 6 bits green, 5 bits blue.
    Rgb565,
    /// 24 bits: 8 bits per channel.
    Rgb888,
    /// 32 bits: 8 bits per channel, the top byte unused.
    Xrgb8888,
}

/// The pixel encoding of an image of bit depth `bpp` with channel masks `masks`.
pub open spec fn color_type_of(bpp: Bpp, masks: Option<ChannelMasks>) -> Result<
    ColorType,
    ParseError,
> {
    match bpp {
        Bpp::Bits1 => Ok(ColorType::Index1),
        Bpp::Bits4 => Ok(ColorType::Index4),
        Bpp::Bits8 => Ok(ColorType::Index8),
        Bpp::Bits16 => match masks {
            None => Ok(ColorType::Rgb555),
            Some(m) => if m == ChannelMasks::spec_rgb555() {
                Ok(ColorType::Rgb555)
            } else if m == ChannelMasks::spec_rgb565() {
                Ok(ColorType::Rgb565)
            } else {
                Err(ParseError::UnsupportedChannelMasks)
            },
        },
        Bpp::Bits24 => Ok(ColorType::Rgb888),
        Bpp::Bits32 => match masks {
            None => Ok(ColorType::Xrgb8888),
            Some(m) => if m == ChannelMasks::spec_rgb888() {
                Ok(ColorType::Xrgb8888)
            } else {
                Err(ParseError::UnsupportedChannelMasks)
            },
        },
    }
}

impl ColorType {
    /// Resolves the pixel encoding of an image from its bit depth and channel masks.
    ///
    /// 16-bit images without masks are RGB555; with masks they must be those of RGB555 or
    /// RGB565. 32-bit images must have no masks or those of RGB888.
    pub fn from_header(header: &Header) -> (r: Result<ColorType, ParseError>)
        ensures
            r == color_type_of(header.bpp, header.channel_masks),
    {
        match header.bpp {
            Bpp::Bits1 => Ok(ColorType::Index1),
            Bpp::Bits4 => Ok(ColorType::Index4),
            Bpp::Bits8 => Ok(ColorType::Index8),
            Bpp::Bits16 => match header.channel_masks {
                None => Ok(ColorType::Rgb555),
                Some(m) => {
                    if m == ChannelMasks::rgb555() {
                        Ok(ColorType::Rgb555)
                    } else if m == ChannelMasks::rgb565() {
                        Ok(ColorType::Rgb565)
                    } else {
                        Err(ParseError::UnsupportedChannelMasks)
                    }
                },
            },
            Bpp::Bits24 => Ok(ColorType::Rgb888),
            Bpp::Bits32 => match header.channel_masks {
                None => Ok(ColorType::Xrgb8888),
                Some(m) => {
                    if m == ChannelMasks::rgb888() {
                        Ok(ColorType::Xrgb8888)
                    } else {
                        Err(ParseError::UnsupportedChannelMasks)
                    }
                },
            },
        }
    }
}

/// What parsing a whole file in memory gives: the header and the color table bytes, provided
/// the image data lies within the file and the pixel encoding is supported.
pub open spec fn slice_parse_spec(bytes: Seq<u8>) -> Result<(Header, Option<Seq<u8>>), ParseError> {
    match parse_spec(bytes) {
        Err(e) => Err(e),
        Ok((h, t)) => if h.image_data_start + h.image_data_len > bytes.len() {
            Err(ParseError::UnexpectedEndOfFile)
        } else {
            match color_type_of(h.bpp, h.channel_masks) {
                Err(e) => Err(e),
                Ok(_) => Ok((h, t)),
            }
        },
    }
}

/// The parse error a failed read of the header stands for: a read beyond the source is a
/// truncated file.
pub open spec fn read_error(e: BmpReaderError) -> ParseError {
    if e == BmpReaderError::AddressOutOfBounds {
        ParseError::UnexpectedEndOfFile
    } else {
        ParseError::Reader(e)
    }
}

/// What parsing the header of the source `src` through a reader gives, with a header buffer of
/// `buffer_len` bytes and a reader buffer of `capacity` bytes, when no read fails.
///
/// The image data must lie within the declared file size, and a stored row must fit in the
/// reader's buffer.
pub open spec fn stream_parse_spec(src: Seq<u8>, buffer_len: int, capacity: int) -> Result<
    (Header, Option<Seq<u8>>),
    ParseError,
> {
    if src.len() < FILE_HEADER_LEN {
        Err(ParseError::UnexpectedEndOfFile)
    } else if src[0] != 0x42u8 || src[1] != 0x4du8 {
        Err(ParseError::InvalidFileSignature)
    } else if u32_le(src, 10) > buffer_len {
        Err(ParseError::UnsupportedHeaderLength(u32_le(src, 10) as u32))
    } else if u32_le(src, 10) > src.len() {
        Err(ParseError::UnexpectedEndOfFile)
    } else {
        match parse_spec(src.subrange(0, u32_le(src, 10))) {
            Err(e) => Err(e),
            Ok((h, t)) => if h.image_data_start + h.image_data_len > h.file_size {
                Err(ParseError::UnexpectedEndOfFile)
            } else {
                match color_type_of(h.bpp, h.channel_masks) {
                    Err(e) => Err(e),
                    Ok(_) => if h.spec_bytes_per_row() > capacity {
                        Err(ParseError::Reader(BmpReaderError::RequestedChunkTooLarge))
                    } else {
                        Ok((h, t))
                    },
                }
            },
        }
    }
}

/// Low-level access to BMP image data.
///
/// Gives the header, the color table and the raw pixel values, without color conversion: for
/// indexed images the pixels are palette indices, to be looked up in the [`ColorTable`].
pub struct RawBmp<'a, R: BmpReader = SliceReader<'a>> {
    header: Header,
    color_type: ColorType,
    color_table: Option<ColorTable<'a>>,
    image_data: &'a [u8],
    image_reader: Option<&'a R>,
}

impl<'a, R: BmpReader> RawBmp<'a, R> {
    #[verifier::type_invariant]
    closed spec fn wf(&self) -> bool {
        &&& header_wf(self.header)
        &&& color_type_of(self.header.bpp, self.header.channel_masks) == Ok::<
            ColorType,
            ParseError,
        >(self.color_type)
        &&& match self.image_reader {
            None => self.image_data@.len() == self.header.image_data_len,
            Some(r) => self.header.image_data_start + self.header.image_data_len <= usize::MAX
                && self.header.spec_bytes_per_row() <= r.buffer_capacity(),
        }
    }

    /// The image header.
    pub closed spec fn spec_header(&self) -> Header {
        self.header
    }

    /// The color table.
    pub closed spec fn spec_color_table(&self) -> Option<ColorTable<'a>> {
        self.color_table
    }

    /// The pixel encoding.
    pub closed spec fn spec_color_type(&self) -> ColorType {
        self.color_type
    }

    /// The image data held in memory; empty for an image read through a reader.
    pub closed spec fn spec_image_data(&self) -> Seq<u8> {
        self.image_data@
    }

    /// The reader the image data is read through, if any.
    pub closed spec fn spec_image_reader(&self) -> Option<&'a R> {
        self.image_reader
    }

    /// The bytes of the image data, wherever they are: the slice held in memory, or the region
    /// of the reader's source that the header declares.
    pub open spec fn image_bytes(&self) -> Seq<u8> {
        match self.spec_image_reader() {
            None => self.spec_image_data(),
            Some(r) => source_region(
                r.source(),
                self.spec_header().image_data_start as int,
                self.spec_header().image_data_len as int,
            ),
        }
    }

    /// Whether all the image data can be read: true for data in memory; for a reader, its reads
    /// do not fail and its source holds the whole image data.
    pub open spec fn complete(&self) -> bool {
        match self.spec_image_reader() {
            None => true,
            Some(r) => r.reliable() && self.spec_header().image_data_start
                + self.spec_header().image_data_len <= r.source().len(),
        }
    }

    /// Create a bitmap object from a byte slice holding a whole BMP file.
    ///
    /// The created object keeps a shared reference to the input and does not copy it.
    pub fn from_slice(bytes: &'a [u8]) -> (r: Result<Self, ParseError>)
        ensures
            match r {
                Ok(bmp) => slice_parse_spec(bytes@) == Ok::<_, ParseError>(
                    (bmp.spec_header(), table_view(bmp.spec_color_table())),
                ) && bmp.spec_image_reader() is None && bmp.spec_image_data() == bytes@.subrange(
                    bmp.spec_header().image_data_start as int,
                    bmp.spec_header().image_data_start + bmp.spec_header().image_data_len,
                ) && bmp.complete(),
                Err(e) => slice_parse_spec(bytes@) == Err::<(Header, Option<Seq<u8>>), _>(e),
            },
    {
        let (header, color_table) = match Header::parse(bytes) {
            Ok(parsed) => parsed,
            Err(e) => {
                return Err(e);
            },
        };
        proof {
            lemma_parsed_header_wf(bytes@);
        }
        let start = header.image_data_start;
        let len = header.image_data_len;
        if start > bytes.len() || len > bytes.len() - start {
            return Err(ParseError::UnexpectedEndOfFile);
        }
        let color_type = match ColorType::from_header(&header) {
            Ok(t) => t,
            Err(e) => {
                return Err(e);
            },
        };
        let image_data = &bytes[start..start + len];
        Ok(RawBmp { header, color_type, color_table, image_data, image_reader: None })
    }

    /// Create a bitmap object that reads its image data through `reader`.
    ///
    /// `header_buffer` receives the bytes before the image data, which the header and the color
    /// table are parsed from; it must be at least that long.
    pub fn from_reader(reader: &'a R, header_buffer: &'a mut [u8]) -> (r: Result<Self, ParseError>)
        ensures
            r matches Ok(bmp) ==> stream_parse_spec(
                reader.source(),
                old(header_buffer)@.len() as int,
                reader.buffer_capacity() as int,
            ) == Ok::<_, ParseError>((bmp.spec_header(), table_view(bmp.spec_color_table())))
                && bmp.spec_image_reader() == Some(reader) && bmp.spec_image_data().len() == 0,
            r matches Ok(bmp) ==> final(header_buffer)@.len() == old(header_buffer)@.len()
                && final(header_buffer)@.subrange(0, bmp.spec_header().image_data_start as int)
                == reader.source().subrange(0, bmp.spec_header().image_data_start as int),
            r matches Err(e) ==> (e != ParseError::Reader(BmpReaderError::ReadError)
                ==> stream_parse_spec(
                reader.source(),
                old(header_buffer)@.len() as int,
                reader.buffer_capacity() as int,
            ) == Err::<(Header, Option<Seq<u8>>), _>(e)),
            reader.reliable() ==> match r {
                Ok(_) => stream_parse_spec(
                    reader.source(),
                    old(header_buffer)@.len() as int,
                    reader.buffer_capacity() as int,
                ) is Ok,
                Err(e) => stream_parse_spec(
                    reader.source(),
                    old(header_buffer)@.len() as int,
                    reader.buffer_capacity() as int,
                ) == Err::<(Header, Option<Seq<u8>>), _>(e),
            },
            u32_le(reader.source(), 10) > old(header_buffer)@.len() ==> final(header_buffer)@
                == old(header_buffer)@,
    {
        let ghost src = reader.source();
        let mut prefix = [0u8; FILE_HEADER_LEN];
        let res = reader.read(0..FILE_HEADER_LEN, &mut prefix);
        if let Err(e) = res {
            return Err(map_read_error(e));
        }
        assert(prefix@ =~= src.subrange(0, FILE_HEADER_LEN as int));
        if prefix[0] != 0x42u8 || prefix[1] != 0x4du8 {
            return Err(ParseError::InvalidFileSignature);
        }
        let start_u32 = read_u32_le(&prefix, 10);
        assert(start_u32 == u32_le(src, 10));
        let start = start_u32 as usize;
        if start > header_buffer.len() {
            return Err(ParseError::UnsupportedHeaderLength(start_u32));
        }
        let res = reader.read(0..start, header_buffer);
        if let Err(e) = res {
            return Err(map_read_error(e));
        }
        let header_bytes: &'a [u8] = header_buffer;
        let header_bytes = &header_bytes[0..start];
        assert(header_bytes@ =~= src.subrange(0, start as int));
        let (header, color_table) = match Header::parse(header_bytes) {
            Ok(parsed) => parsed,
            Err(e) => {
                return Err(e);
            },
        };
        proof {
            lemma_parsed_header_wf(header_bytes@);
        }
        if header.image_data_len > header.file_size as usize || start > header.file_size as usize
            - header.image_data_len {
            return Err(ParseError::UnexpectedEndOfFile);
        }
        let color_type = match ColorType::from_header(&header) {
            Ok(t) => t,
            Err(e) => {
                return Err(e);
            },
        };
        if header.bytes_per_row() > reader.internal_buffer_size() {
            return Err(ParseError::Reader(BmpReaderError::RequestedChunkTooLarge));
        }
        Ok(RawBmp { header, color_type, color_table, image_data: &[], image_reader: Some(reader) })
    }

    /// Returns the color table associated with the image.
    pub fn color_table(&self) -> (r: Option<&ColorTable<'a>>)
        ensures
            r == match self.spec_color_table() {
                Some(t) => Some(&t),
                None => None::<&ColorTable<'a>>,
            },
    {
        self.color_table.as_ref()
    }

    /// Returns the image data held in memory; empty for an image read through a reader.
    pub fn image_data(&self) -> (r: &'a [u8])
        ensures
            r@ == self.spec_image_data(),
    {
        self.image_data
    }

    /// Returns a reference to the BMP header.
    pub fn header(&self) -> (r: &Header)
        ensures
            *r == self.spec_header(),
    {
        &self.header
    }

    /// Returns the pixel encoding of the image.
    pub fn color_type(&self) -> (r: ColorType)
        ensures
            r == self.spec_color_type(),
            color_type_of(self.spec_header().bpp, self.spec_header().channel_masks) == Ok::<
                ColorType,
                ParseError,
            >(r),
    {
        proof {
            use_type_invariant(self);
        }
        self.color_type
    }

    /// Returns the reader the image data is read through, if any.
    pub fn image_reader(&self) -> (r: Option<&'a R>)
        ensures
            r == self.spec_image_reader(),
    {
        self.image_reader
    }

    /// Returns an iterator over the raw pixels of the image, in row-major order from the top
    /// left corner.
    ///
    /// For indexed images the raw values are palette indices.
    pub fn pixels(&self) -> (r: RawPixels<'a, R>)
        ensures
            r.wf(),
            r.remaining() == image_pixels(self.spec_header(), self.image_bytes()),
            r.delivers() == self.complete(),
    {
        proof {
            use_type_invariant(self);
        }
        let stride = self.header.bytes_per_row();
        let height = self.header.image_size.height as usize;
        proof {
            assert(height * stride == stride * height) by (nonlinear_arith);
        }
        let rows = match self.image_reader {
            None => ChunkReaderWrapper::slice(SliceReaderIterator::new(self.image_data, stride)),
            Some(reader) => {
                let start = self.header.image_data_start;
                match ReaderChunks::new(reader, start, stride, height) {
                    Ok(it) => ChunkReaderWrapper::reader(it),
                    Err(_) => {
                        proof {
                            assert(false);
                        }
                        ChunkReaderWrapper::slice(SliceReaderIterator::new(self.image_data, stride))
                    },
                }
            },
        };
        RawPixels::new(rows, &self.header)
    }
}

/// Whether an image of bit depth `bpp` can be shown in a color type of `color_bits` bits per
/// pixel: the depths are equal, or a 32-bit image is shown in 24-bit colors, or a 1- or 8-bit
/// image with a color table is shown through its palette.
pub open spec fn depth_fits(color_bits: int, bpp: Bpp, has_color_table: bool) -> bool {
    ||| color_bits == bpp.spec_bits()
    ||| (bpp == Bpp::Bits32 && color_bits == 24)
    ||| ((bpp == Bpp::Bits1 || bpp == Bpp::Bits8) && has_color_table)
}

/// Checks that an image of bit depth `bpp` can be shown in a color type of `color_bits` bits per
/// pixel, else returns [`ParseError::MismatchedBpp`] with the image's depth.
pub fn check_bit_depth(color_bits: usize, bpp: Bpp, has_color_table: bool) -> (r: Result<
    (),
    ParseError,
>)
    ensures
        depth_fits(color_bits as int, bpp, has_color_table) ==> r is Ok,
        !depth_fits(color_bits as int, bpp, has_color_table) ==> r == Err::<(), ParseError>(
            ParseError::MismatchedBpp(bpp.spec_bits()),
        ),
{
    let bits = bpp.bits();
    if color_bits == bits as usize {
        Ok(())
    } else if bpp == Bpp::Bits32 && color_bits == 24 {
        Ok(())
    } else if (bpp == Bpp::Bits1 || bpp == Bpp::Bits8) && has_color_table {
        Ok(())
    } else {
        Err(ParseError::MismatchedBpp(bits))
    }
}

/// Maps a failed read of the header to the parse error it stands for.
fn map_read_error(e: BmpReaderError) -> (r: ParseError)
    ensures
        r == read_error(e),
{
    match e {
        BmpReaderError::AddressOutOfBounds => ParseError::UnexpectedEndOfFile,
        _ => ParseError::Reader(e),
    }
}

/// Reading a file through a reader gives what parsing it from a slice gives: the same header,
/// the same color table and the same image data, hence the same pixels, provided the file
/// declares its true size, the header buffer holds the bytes before the image data, and a stored
/// row fits in the reader's buffer (the buffer need hold no more than one row).
pub proof fn lemma_stream_matches_slice(bytes: Seq<u8>, buffer_len: int, capacity: int)
    requires
        slice_parse_spec(bytes) is Ok,
        slice_parse_spec(bytes)->Ok_0.0.file_size == bytes.len(),
        slice_parse_spec(bytes)->Ok_0.0.image_data_start <= buffer_len,
        slice_parse_spec(bytes)->Ok_0.0.spec_bytes_per_row() <= capacity,
    ensures
        stream_parse_spec(bytes, buffer_len, capacity) == slice_parse_spec(bytes),
        ({
            let h = slice_parse_spec(bytes)->Ok_0.0;
            source_region(bytes, h.image_data_start as int, h.image_data_len as int)
                == bytes.subrange(
                h.image_data_start as int,
                h.image_data_start + h.image_data_len,
            )
        }),
{
    let h = slice_parse_spec(bytes)->Ok_0.0;
    lemma_parsed_header_wf(bytes);
    let start = u32_le(bytes, 10);
    assert(start == h.image_data_start);
    let prefix = bytes.subrange(0, start);
    assert(prefix.subrange(0, start) =~= bytes.subrange(0, start));
    assert(prefix[0] == bytes[0] && prefix[1] == bytes[1]);
    assert(u32_le(prefix, 10) == start);
    assert(parse_spec(prefix) == parse_spec(bytes));
    lemma_region_in_source(bytes, h.image_data_start as int, h.image_data_len as int);
}

} // verus!
