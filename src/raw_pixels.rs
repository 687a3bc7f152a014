//! Pixel decoding: rows in top-to-bottom order, unpacked into raw pixel values.
use vstd::arithmetic::div_mod::lemma_fundamental_div_mod_converse;
use vstd::prelude::*;

use crate::color_table::entry_color;
use crate::header::{row_len, Bpp, Header, RowOrder};
use crate::reader::{BmpReader, BmpReaderChunkIterator, ReaderChunks, SliceReaderIterator};

verus! {

/// A position relative to the top left corner of the image.
#[derive(Copy, Clone, Debug, PartialEq, Eq, Hash, Default, Structural)]
pub struct Point {
    /// Column, counted from the left.
    pub x: i32,
    /// Row, counted from the top.
    pub y: i32,
}

impl Point {
    /// Creates a point.
    pub fn new(x: i32, y: i32) -> (r: Point)
        ensures
            r.x == x,
            r.y == y,
    {
        Point { x, y }
    }
}

/// Pixel with its raw color stored as a `u32`.
#[derive(Copy, Clone, Debug, PartialEq, Eq, Hash, Default, Structural)]
pub struct RawPixel {
    /// The position relative to the top left corner of the image.
    pub position: Point,
    /// The raw pixel color: a palette index for indexed images, the packed channel bits
    /// otherwise.
    pub color: u32,
}

impl RawPixel {
    /// Creates a new raw pixel.
    pub fn new(position: Point, color: u32) -> (r: RawPixel)
        ensures
            r.position == position,
            r.color == color,
    {
        RawPixel { position, color }
    }
}

/// Raw value of pixel `x` in the stored row `row`.
///
/// Pixels of 1 and 4 bits are packed most significant group first; wider pixels are
/// little-endian, and the top byte of a 32-bit pixel is ignored.
pub open spec fn pixel_value(row: Seq<u8>, x: int, bpp: Bpp) -> u32 {
    match bpp {
        Bpp::Bits1 => ((row[x / 8] >> ((7 - x % 8) as u8)) & 1u8) as u32,
        Bpp::Bits4 => ((row[x / 2] >> ((4 - 4 * (x % 2)) as u8)) & 0xfu8) as u32,
        Bpp::Bits8 => row[x] as u32,
        Bpp::Bits16 => (row[2 * x] as int + 256 * (row[2 * x + 1] as int)) as u32,
        Bpp::Bits24 => (row[3 * x] as int + 256 * (row[3 * x + 1] as int) + 65536 * (row[3 * x
            + 2] as int)) as u32,
        Bpp::Bits32 => (row[4 * x] as int + 256 * (row[4 * x + 1] as int) + 65536 * (row[4 * x
            + 2] as int)) as u32,
    }
}

/// Index, among the stored rows, of the row shown at `y` (counted from the top).
pub open spec fn stored_row_index(h: Header, y: int) -> int {
    match h.row_order {
        RowOrder::TopDown => y,
        RowOrder::BottomUp => h.image_size.height - 1 - y,
    }
}

/// Pixel `i` in row-major, top-left-origin order, from the stored rows `rows`.
pub open spec fn pixel_at(h: Header, rows: Seq<Seq<u8>>, i: int) -> RawPixel {
    let w = h.image_size.width as int;
    let x = i % w;
    let y = i / w;
    RawPixel {
        position: Point { x: x as i32, y: y as i32 },
        color: pixel_value(rows[stored_row_index(h, y)], x, h.bpp),
    }
}

/// All pixels of the image whose stored rows, in file order, are `rows`.
pub open spec fn pixels_of_rows(h: Header, rows: Seq<Seq<u8>>) -> Seq<RawPixel> {
    Seq::new(
        (h.image_size.width * h.image_size.height) as nat,
        |i: int| pixel_at(h, rows, i),
    )
}

/// The stored rows of image data `data`, in file order.
pub open spec fn stored_rows(h: Header, data: Seq<u8>) -> Seq<Seq<u8>> {
    let stride = h.spec_bytes_per_row();
    Seq::new(
        h.image_size.height as nat,
        |k: int| data.subrange(k * stride, k * stride + stride),
    )
}

/// All pixels of the image with header `h` and image data `data`.
pub open spec fn image_pixels(h: Header, data: Seq<u8>) -> Seq<RawPixel> {
    pixels_of_rows(h, stored_rows(h, data))
}

/// The bytes of a stored row of width `width` hold every pixel of the row.
proof fn lemma_row_holds_pixel(width: int, x: int, bpp: Bpp)
    requires
        0 <= x < width,
    ensures
        bpp == Bpp::Bits1 ==> x / 8 < row_len(width, 1),
        bpp == Bpp::Bits4 ==> x / 2 < row_len(width, 4),
        bpp == Bpp::Bits8 ==> x + 1 <= row_len(width, 8),
        bpp == Bpp::Bits16 ==> 2 * x + 2 <= row_len(width, 16),
        bpp == Bpp::Bits24 ==> 3 * x + 3 <= row_len(width, 24),
        bpp == Bpp::Bits32 ==> 4 * x + 4 <= row_len(width, 32),
{
    let bits = bpp.spec_bits() as int;
    let packed = (width * bits + 7) / 8;
    assert(row_len(width, bits) >= packed) by (nonlinear_arith)
        requires
            packed >= 0,
            row_len(width, bits) == (packed + 3) / 4 * 4,
    ;
    assert(bits == 1 ==> x / 8 < (width * bits + 7) / 8) by (nonlinear_arith)
        requires
            0 <= x < width,
    ;
    assert(bits == 4 ==> x / 2 < (width * bits + 7) / 8) by (nonlinear_arith)
        requires
            0 <= x < width,
    ;
    assert(bits == 8 || bits == 16 || bits == 24 || bits == 32 ==> x * (bits / 8) + bits / 8 <= (
    width * bits + 7) / 8) by (nonlinear_arith)
        requires
            0 <= x < width,
    ;
}

/// Raw value of pixel `x` of a stored row.
fn row_value(row: &[u8], x: u32, width: u32, bpp: Bpp) -> (r: u32)
    requires
        x < width,
        row@.len() == row_len(width as int, bpp.spec_bits() as int),
    ensures
        r == pixel_value(row@, x as int, bpp),
{
    proof {
        lemma_row_holds_pixel(width as int, x as int, bpp);
    }
    let n = row.len();
    assert(n == row@.len());
    let x = x as usize;
    match bpp {
        Bpp::Bits1 => ((row[x / 8] >> ((7 - x % 8) as u8)) & 1u8) as u32,
        Bpp::Bits4 => ((row[x / 2] >> ((4 - 4 * (x % 2)) as u8)) & 0xfu8) as u32,
        Bpp::Bits8 => row[x] as u32,
        Bpp::Bits16 => row[2 * x] as u32 + (row[2 * x + 1] as u32) * 256,
        Bpp::Bits24 => row[3 * x] as u32 + (row[3 * x + 1] as u32) * 256 + (row[3 * x + 2] as u32)
            * 65536,
        Bpp::Bits32 => row[4 * x] as u32 + (row[4 * x + 1] as u32) * 256 + (row[4 * x + 2] as u32)
            * 65536,
    }
}

/// Facts on the index `y * w + x` of the pixel at `(x, y)` in an image of `w` by `h` pixels.
proof fn lemma_pixel_index(w: int, h: int, x: int, y: int)
    requires
        0 <= w,
        0 <= y <= h,
        0 <= x,
        x < w || x == 0,
        y == h ==> x == 0,
    ensures
        0 <= y * w + x <= w * h,
        y < h && w > 0 ==> y * w + x < w * h,
        y == h ==> y * w + x == w * h,
        w == 0 ==> y * w + x == 0,
        x + 1 == w ==> (y + 1) * w + 0 == y * w + x + 1,
{
    assert(0 <= y * w + x <= w * h) by (nonlinear_arith)
        requires
            0 <= w,
            0 <= y <= h,
            0 <= x,
            x < w || x == 0,
            y == h ==> x == 0,
    ;
    assert(y < h && w > 0 ==> y * w + x < w * h) by (nonlinear_arith)
        requires
            0 <= w,
            0 <= y <= h,
            0 <= x,
            x < w || x == 0,
    ;
    assert(y == h ==> y * w + x == w * h) by (nonlinear_arith)
        requires
            y == h ==> x == 0,
    ;
    assert(w == 0 ==> y * w + x == 0) by (nonlinear_arith)
        requires
            0 <= x,
            x < w || x == 0,
    ;
    assert((y + 1) * w == y * w + w) by (nonlinear_arith);
}

/// Facts on the offsets of stored row `y` of `s` bytes among `h` rows.
proof fn lemma_row_offsets(y: int, h: int, s: int)
    requires
        0 <= y < h,
        s > 0,
    ensures
        0 <= y * s,
        y * s + s <= h * s,
        (y + 1) * s == y * s + s,
        (h - y) * s - s == (h - y - 1) * s,
        (h - y) * s >= s,
        h * s - y * s == (h - y) * s,
{
    assert(0 <= y * s && y * s + s <= h * s && (y + 1) * s == y * s + s) by (nonlinear_arith)
        requires
            0 <= y < h,
            s > 0,
    ;
    assert((h - y) * s - s == (h - y - 1) * s && (h - y) * s >= s && h * s - y * s == (h - y) * s)
        by (nonlinear_arith)
        requires
            0 <= y < h,
            s > 0,
    ;
}

/// The rows of an image, read from a slice or from a [`BmpReader`].
pub(crate) enum ChunkReaderWrapper<'a, R: BmpReader> {
    Slice(SliceReaderIterator<'a>),
    Reader(ReaderChunks<'a, R>),
}

impl<'a, R: BmpReader> ChunkReaderWrapper<'a, R> {
    /// Rows handed out as views of a slice.
    pub(crate) fn slice(it: SliceReaderIterator<'a>) -> (r: Self)
        ensures
            r.remaining() == it.remaining(),
            r.delivers() == it.delivers(),
            r.chunk_len() == it.chunk_len(),
    {
        ChunkReaderWrapper::Slice(it)
    }

    /// Rows read through a reader.
    pub(crate) fn reader(it: ReaderChunks<'a, R>) -> (r: Self)
        ensures
            r.remaining() == it.remaining(),
            r.delivers() == it.delivers(),
            r.chunk_len() == it.chunk_len(),
    {
        ChunkReaderWrapper::Reader(it)
    }
}

impl<'a, R: BmpReader> BmpReaderChunkIterator for ChunkReaderWrapper<'a, R> {
    closed spec fn remaining(&self) -> Seq<u8> {
        match self {
            ChunkReaderWrapper::Slice(it) => it.remaining(),
            ChunkReaderWrapper::Reader(it) => it.remaining(),
        }
    }

    closed spec fn delivers(&self) -> bool {
        match self {
            ChunkReaderWrapper::Slice(it) => it.delivers(),
            ChunkReaderWrapper::Reader(it) => it.delivers(),
        }
    }

    closed spec fn chunk_len(&self) -> nat {
        match self {
            ChunkReaderWrapper::Slice(it) => it.chunk_len(),
            ChunkReaderWrapper::Reader(it) => it.chunk_len(),
        }
    }

    closed spec fn last(&self) -> Seq<u8> {
        match self {
            ChunkReaderWrapper::Slice(it) => it.last(),
            ChunkReaderWrapper::Reader(it) => it.last(),
        }
    }

    fn current(&self) -> (r: &[u8]) {
        match self {
            ChunkReaderWrapper::Slice(it) => it.current(),
            ChunkReaderWrapper::Reader(it) => it.current(),
        }
    }

    fn next(&mut self) -> (r: Option<&[u8]>) {
        match self {
            ChunkReaderWrapper::Slice(it) => it.next(),
            ChunkReaderWrapper::Reader(it) => it.next(),
        }
    }

    fn next_back(&mut self) -> (r: Option<&[u8]>) {
        match self {
            ChunkReaderWrapper::Slice(it) => it.next_back(),
            ChunkReaderWrapper::Reader(it) => it.next_back(),
        }
    }
}

/// Iterator over the pixels of an image, in row-major order from the top left corner.
///
/// Rows are pulled one at a time: from the front of the image data for top-down images and
/// from the back for bottom-up ones. The pixels of a row are read from the chunk that holds it,
/// without a copy.
pub struct RawPixels<'a, R: BmpReader> {
    rows: ChunkReaderWrapper<'a, R>,
    bpp: Bpp,
    row_order: RowOrder,
    width: u32,
    height: u32,
    x: u32,
    y: u32,
    header: Ghost<Header>,
    data: Ghost<Seq<u8>>,
}

impl<'a, R: BmpReader> RawPixels<'a, R> {
    /// Number of rows pulled so far.
    closed spec fn loaded(&self) -> int {
        if self.x > 0 {
            self.y + 1
        } else {
            self.y as int
        }
    }

    /// Index of the next pixel.
    closed spec fn index(&self) -> int {
        self.y * self.width + self.x
    }

    /// Well-formedness of the decoder's state.
    pub closed spec fn wf(&self) -> bool {
        let h = self.header@;
        let s = row_len(self.width as int, self.bpp.spec_bits() as int);
        &&& h.image_size.width == self.width
        &&& h.image_size.height == self.height
        &&& h.bpp == self.bpp
        &&& h.row_order == self.row_order
        &&& self.width < 0x8000_0000
        &&& self.height < 0x8000_0000
        &&& s <= usize::MAX
        &&& self.rows.chunk_len() == s
        &&& self.y <= self.height
        &&& (self.x < self.width || self.x == 0)
        &&& (self.y == self.height ==> self.x == 0)
        &&& self.width > 0 ==> {
            &&& s > 0
            &&& self.data@.len() == self.height * s
            &&& (self.y < self.height && self.row_order == RowOrder::TopDown ==> self.rows.remaining()
                == self.data@.subrange(self.loaded() * s, self.height * s))
            &&& (self.y < self.height && self.row_order == RowOrder::BottomUp
                ==> self.rows.remaining() == self.data@.subrange(0, (self.height - self.loaded()) * s))
            &&& (self.x > 0 ==> self.rows.last() == stored_rows(h, self.data@)[stored_row_index(
                h,
                self.y as int,
            )])
        }
    }

    /// The pixels not yet produced, in order.
    pub closed spec fn remaining(&self) -> Seq<RawPixel> {
        image_pixels(self.header@, self.data@).subrange(self.index(), self.width * self.height)
    }

    /// Whether every remaining pixel will be produced: no read of the image data fails.
    pub closed spec fn delivers(&self) -> bool {
        self.rows.delivers()
    }

    /// Creates the decoder of the image with header `header` whose image data is the region
    /// that `rows` hands out.
    pub(crate) fn new(rows: ChunkReaderWrapper<'a, R>, header: &Header) -> (r: Self)
        requires
            header.image_size.width < 0x8000_0000,
            header.image_size.height < 0x8000_0000,
            header.spec_bytes_per_row() <= usize::MAX,
            rows.chunk_len() == header.spec_bytes_per_row(),
            rows.remaining().len() == header.image_size.height * header.spec_bytes_per_row(),
        ensures
            r.wf(),
            r.remaining() == image_pixels(*header, rows.remaining()),
            r.delivers() == rows.delivers(),
    {
        let ghost stride = header.spec_bytes_per_row();
        let ghost data = rows.remaining();
        let r = RawPixels {
            rows,
            bpp: header.bpp,
            row_order: header.row_order,
            width: header.image_size.width,
            height: header.image_size.height,
            x: 0,
            y: 0,
            header: Ghost(*header),
            data: Ghost(data),
        };
        proof {
            lemma_pixel_index(r.width as int, r.height as int, 0, 0);
            if r.width > 0 {
                let w = r.width as int;
                let bits = r.bpp.spec_bits() as int;
                assert((w * bits + 7) / 8 >= 1) by (nonlinear_arith)
                    requires
                        w >= 1,
                        bits >= 1,
                ;
                assert(data.subrange(0, r.height * stride) =~= data);
                assert(data.subrange(0 * stride, r.height * stride) =~= data);
            }
        }
        assert(r.remaining() =~= image_pixels(*header, data));
        r
    }

    /// Pulls the row shown at `y` into the row buffer.
    fn fetch_row(&mut self) -> (ok: bool)
        requires
            old(self).wf(),
            old(self).width > 0,
            old(self).x == 0,
            old(self).y < old(self).height,
        ensures
            final(self).header == old(self).header,
            final(self).data == old(self).data,
            final(self).width == old(self).width,
            final(self).height == old(self).height,
            final(self).bpp == old(self).bpp,
            final(self).row_order == old(self).row_order,
            final(self).x == 0,
            final(self).rows.chunk_len() == old(self).rows.chunk_len(),
            old(self).delivers() ==> final(self).delivers(),
            old(self).delivers() ==> ok,
            ok ==> final(self).y == old(self).y && final(self).rows.last() == stored_rows(
                old(self).header@,
                old(self).data@,
            )[stored_row_index(old(self).header@, old(self).y as int)],
            ok && old(self).row_order == RowOrder::TopDown ==> final(self).rows.remaining()
                == old(self).data@.subrange(
                (old(self).y + 1) * old(self).rows.chunk_len(),
                old(self).height * old(self).rows.chunk_len(),
            ),
            ok && old(self).row_order == RowOrder::BottomUp ==> final(self).rows.remaining()
                == old(self).data@.subrange(
                0,
                (old(self).height - old(self).y - 1) * old(self).rows.chunk_len(),
            ),
            !ok ==> final(self).wf() && final(self).remaining().len() == 0,
    {
        let ghost s = self.rows.chunk_len() as int;
        let ghost y = self.y as int;
        let ghost h = self.height as int;
        let ghost data = self.data@;
        proof {
            lemma_row_offsets(y, h, s);
        }
        let got = match self.row_order {
            RowOrder::TopDown => self.rows.next(),
            RowOrder::BottomUp => self.rows.next_back(),
        };
        match got {
            Some(c) => {
                proof {
                    if self.row_order == RowOrder::TopDown {
                        assert(self.rows.last() =~= data.subrange(y * s, y * s + s));
                        assert(self.rows.remaining() =~= data.subrange((y + 1) * s, h * s));
                    } else {
                        assert(self.rows.last() =~= data.subrange(
                            (h - y - 1) * s,
                            (h - y - 1) * s + s,
                        ));
                        assert(self.rows.remaining() =~= data.subrange(0, (h - y - 1) * s));
                    }
                }
                true
            },
            None => {
                self.y = self.height;
                proof {
                    lemma_pixel_index(self.width as int, self.height as int, 0, self.height as int);
                }
                false
            },
        }
    }

    /// Returns the next pixel, or `None` once all pixels were produced or a read of the image
    /// data failed.
    pub fn next(&mut self) -> (r: Option<RawPixel>)
        requires
            old(self).wf(),
        ensures
            final(self).wf(),
            old(self).delivers() ==> final(self).delivers(),
            old(self).remaining().len() == 0 ==> r is None,
            r matches Some(p) ==> old(self).remaining().len() > 0 && p == old(self).remaining()[0]
                && final(self).remaining() == old(self).remaining().drop_first(),
            r is None ==> final(self).remaining().len() == 0,
            old(self).delivers() && old(self).remaining().len() > 0 ==> r is Some,
    {
        proof {
            lemma_pixel_index(self.width as int, self.height as int, self.x as int, self.y as int);
        }
        if self.width == 0 || self.y >= self.height {
            return None;
        }
        if self.x == 0 {
            if !self.fetch_row() {
                return None;
            }
        }
        let ghost h = self.header@;
        let ghost i = self.index();
        let x = self.x;
        let y = self.y;
        proof {
            let k = stored_row_index(h, y as int);
            lemma_row_offsets(k, self.height as int, self.rows.chunk_len() as int);
        }
        let color = row_value(self.rows.current(), x, self.width, self.bpp);
        let p = RawPixel { position: Point { x: x as i32, y: y as i32 }, color };
        if x + 1 == self.width {
            self.x = 0;
            self.y = y + 1;
        } else {
            self.x = x + 1;
        }
        proof {
            lemma_pixel_index(self.width as int, self.height as int, x as int, y as int);
            lemma_fundamental_div_mod_converse(i, self.width as int, y as int, x as int);
            lemma_pixel_index(self.width as int, self.height as int, self.x as int, self.y as int);
            assert(self.index() == i + 1);
            assert(p == pixel_at(h, stored_rows(h, self.data@), i));
            assert(self.remaining() =~= old(self).remaining().drop_first());
        }
        Some(p)
    }
}

/// Every pixel position of the image appears exactly once, in row-major order from the top
/// left corner: pixel `i` is at column `i % width` of row `i / width`, so the pixel at `(x, y)`
/// is pixel `y * width + x`, and there are `width * height` pixels.
pub proof fn lemma_positions_row_major(h: Header, rows: Seq<Seq<u8>>)
    requires
        h.image_size.width < 0x8000_0000,
        h.image_size.height < 0x8000_0000,
    ensures
        pixels_of_rows(h, rows).len() == h.image_size.width * h.image_size.height,
        forall|i: int|
            0 <= i < pixels_of_rows(h, rows).len() ==> {
                let p = #[trigger] pixels_of_rows(h, rows)[i];
                &&& 0 <= p.position.x < h.image_size.width
                &&& 0 <= p.position.y < h.image_size.height
                &&& p.position.y * h.image_size.width + p.position.x == i
            },
        forall|x: int, y: int|
            0 <= x < h.image_size.width && 0 <= y < h.image_size.height ==> (#[trigger] pixels_of_rows(
                h,
                rows,
            )[y * h.image_size.width + x]).position == (Point { x: x as i32, y: y as i32 }),
{
    let w = h.image_size.width as int;
    let hh = h.image_size.height as int;
    assert forall|i: int| 0 <= i < pixels_of_rows(h, rows).len() implies {
        let p = #[trigger] pixels_of_rows(h, rows)[i];
        &&& 0 <= p.position.x < w
        &&& 0 <= p.position.y < hh
        &&& p.position.y * w + p.position.x == i
    } by {
        assert(w > 0) by (nonlinear_arith)
            requires
                0 <= i < w * hh,
                0 <= w,
                0 <= hh,
        ;
        assert(0 <= i % w < w && 0 <= i / w < hh && (i / w) * w + i % w == i) by (nonlinear_arith)
            requires
                0 <= i < w * hh,
                w > 0,
        ;
    }
    assert forall|x: int, y: int| 0 <= x < w && 0 <= y < hh implies (#[trigger] pixels_of_rows(
        h,
        rows,
    )[y * w + x]).position == Point { x: x as i32, y: y as i32 } by {
        assert(0 <= y * w + x < w * hh) by (nonlinear_arith)
            requires
                0 <= x < w,
                0 <= y < hh,
        ;
        lemma_fundamental_div_mod_converse(y * w + x, w, y, x);
    }
}

/// A bottom-up image and a top-down image that store the same rows in opposite orders decode to
/// the same pixels, positions and raw colors alike.
pub proof fn lemma_row_order_equivalence(
    top_down: Header,
    top_down_data: Seq<u8>,
    bottom_up: Header,
    bottom_up_data: Seq<u8>,
)
    requires
        top_down.row_order == RowOrder::TopDown,
        bottom_up == (Header { row_order: RowOrder::BottomUp, ..top_down }),
        forall|k: int|
            0 <= k < top_down.image_size.height ==> #[trigger] stored_rows(
                bottom_up,
                bottom_up_data,
            )[k] == stored_rows(top_down, top_down_data)[top_down.image_size.height - 1 - k],
    ensures
        image_pixels(top_down, top_down_data) == image_pixels(bottom_up, bottom_up_data),
{
    let w = top_down.image_size.width as int;
    let hh = top_down.image_size.height as int;
    let a = image_pixels(top_down, top_down_data);
    let b = image_pixels(bottom_up, bottom_up_data);
    assert forall|i: int| 0 <= i < a.len() implies a[i] == b[i] by {
        assert(w > 0) by (nonlinear_arith)
            requires
                0 <= i < w * hh,
                0 <= w,
                0 <= hh,
        ;
        assert(0 <= i / w < hh) by (nonlinear_arith)
            requires
                0 <= i < w * hh,
                w > 0,
        ;
        let k = hh - 1 - i / w;
        assert(stored_rows(bottom_up, bottom_up_data)[k] == stored_rows(top_down, top_down_data)[hh
            - 1 - k]);
    }
    assert(a =~= b);
}

/// Raw values of 1-, 4- and 8-bit pixels are below `2^bits`.
proof fn lemma_index_bound(row: Seq<u8>, x: int, bpp: Bpp)
    requires
        bpp == Bpp::Bits1 || bpp == Bpp::Bits4 || bpp == Bpp::Bits8,
    ensures
        bpp == Bpp::Bits1 ==> pixel_value(row, x, bpp) < 2,
        bpp == Bpp::Bits4 ==> pixel_value(row, x, bpp) < 16,
        bpp == Bpp::Bits8 ==> pixel_value(row, x, bpp) < 256,
{
    if bpp == Bpp::Bits1 {
        let b = row[x / 8];
        let s = (7 - x % 8) as u8;
        assert((b >> s) & 1u8 < 2) by (bit_vector);
    } else if bpp == Bpp::Bits4 {
        let b = row[x / 2];
        let s = (4 - 4 * (x % 2)) as u8;
        assert((b >> s) & 0xfu8 < 16) by (bit_vector);
    }
}

/// In an indexed image whose color table has an entry for every value of its bit depth, every
/// raw color is an index into the table, and looking it up gives that entry's color.
pub proof fn lemma_indices_in_table(h: Header, data: Seq<u8>, table: Seq<u8>)
    requires
        h.bpp == Bpp::Bits1 || h.bpp == Bpp::Bits4 || h.bpp == Bpp::Bits8,
        table.len() / 4 >= vstd::arithmetic::power2::pow2(h.bpp.spec_bits() as nat),
    ensures
        forall|i: int|
            0 <= i < image_pixels(h, data).len() ==> {
                let c = (#[trigger] image_pixels(h, data)[i]).color as int;
                &&& c < table.len() / 4
                &&& entry_color(table, c) == Some(
                    (table[4 * c] as int + 256 * (table[4 * c + 1] as int) + 65536 * (table[4 * c
                        + 2] as int)) as u32,
                )
            },
{
    vstd::arithmetic::power2::lemma2_to64();
    assert forall|i: int| 0 <= i < image_pixels(h, data).len() implies {
        let c = (#[trigger] image_pixels(h, data)[i]).color as int;
        &&& c < table.len() / 4
        &&& entry_color(table, c) == Some(
            (table[4 * c] as int + 256 * (table[4 * c + 1] as int) + 65536 * (table[4 * c
                + 2] as int)) as u32,
        )
    } by {
        let w = h.image_size.width as int;
        let rows = stored_rows(h, data);
        lemma_index_bound(rows[stored_row_index(h, i / w)], i % w, h.bpp);
    }
}

} // verus!
