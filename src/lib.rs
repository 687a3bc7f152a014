//! A small BMP decoder for memory-constrained environments.
//!
//! The header parser, the color-type resolver, the color table, the storage
//! readers and the pixel decoder are verified against the specifications
//! stated on each item.
use vstd::prelude::*;

pub mod color_table;
pub mod header;
pub mod raw_bmp;
pub mod raw_pixels;
pub mod reader;

pub use crate::color_table::ColorTable;
pub use crate::header::{Bpp, ChannelMasks, Header, RowOrder, Size};
pub use crate::raw_bmp::{ColorType, RawBmp};
pub use crate::raw_pixels::{Point, RawPixel, RawPixels};
pub use crate::reader::{BmpReader, BmpReaderChunkIterator, BmpReaderError, SliceReader};

verus! {

/// Parse error.
#[derive(Debug, Copy, Clone, PartialEq, Eq, Structural)]
pub enum ParseError {
    /// An error occurred while parsing the header.
    Header,
    /// The image uses a bit depth that isn't supported.
    UnsupportedBpp(u16),
    /// The image bit depth doesn't match the specified color type.
    MismatchedBpp(u16),
    /// The image format isn't supported by a dynamically typed image.
    UnsupportedDynamicBmpFormat,
    /// Unexpected end of file.
    UnexpectedEndOfFile,
    /// Invalid file signature: BMP files must start with `BM`.
    InvalidFileSignature,
    /// Missing color table: images with at most 8 bits per pixel must contain one.
    MissingColorTable,
    /// Unsupported compression method.
    UnsupportedCompressionMethod(u32),
    /// Unsupported header length.
    UnsupportedHeaderLength(u32),
    /// The channel masks don't describe a supported pixel format.
    UnsupportedChannelMasks,
    /// The storage reader failed for another reason than a truncated source.
    Reader(BmpReaderError),
}

} // verus!
