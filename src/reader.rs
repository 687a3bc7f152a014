//! Storage readers: where the image bytes come from.
//!
//! A [`BmpReader`] gives byte ranges of a source that need not be in memory (external flash,
//! for example). Image rows are pulled from it as a double-ended sequence of fixed-size chunks,
//! from the front or from the back: [`SliceReaderIterator`] hands out views into an in-memory
//! slice, and [`ReaderChunks`] reads each chunk from a reader into one reusable buffer.
use core::ops::Range;
use vstd::prelude::*;

verus! {

/// Internal buffer size of a [`SliceReader`] made by [`SliceReader::new`].
pub const INTERNAL_BUFFER_SIZE: usize = 200;

/// Storage reader errors.
#[derive(Copy, Clone, Debug, PartialEq, Eq, Structural)]
pub enum BmpReaderError {
    /// Error reading from the data source.
    ReadError,
    /// Requested chunk larger than the reader's internal buffer.
    RequestedChunkTooLarge,
    /// Given buffer is too small for the requested read operation.
    BufferTooSmall,
    /// This instance of the reader is null.
    NullReader,
    /// The requested range lies outside the source.
    AddressOutOfBounds,
}

/// What a read of `start..end` into a buffer of `buffer_len` bytes owes, for a source of
/// `source_len` bytes: `Ok` if the range lies in the source and fits in the buffer.
pub open spec fn read_outcome(source_len: int, start: int, end: int, buffer_len: int) -> Result<
    (),
    BmpReaderError,
> {
    if start <= end && end - start > buffer_len {
        Err(BmpReaderError::BufferTooSmall)
    } else if start > end || end > source_len {
        Err(BmpReaderError::AddressOutOfBounds)
    } else {
        Ok(())
    }
}

/// A source of BMP file bytes.
pub trait BmpReader {
    /// The bytes of the source.
    spec fn source(&self) -> Seq<u8>;

    /// Whether every read that [`read_outcome`] allows succeeds; false for a source whose reads
    /// may fail, as I/O may.
    spec fn reliable(&self) -> bool;

    /// Capacity of the buffer that chunked reads of this source may use.
    spec fn buffer_capacity(&self) -> usize;

    /// Returns the capacity of the buffer that chunked reads of this source may use.
    fn internal_buffer_size(&self) -> (r: usize)
        ensures
            r == self.buffer_capacity(),
    ;

    /// Copies the bytes at `positions` of the source to the start of `buffer`.
    fn read(&self, positions: Range<usize>, buffer: &mut [u8]) -> (r: Result<(), BmpReaderError>)
        ensures
            final(buffer)@.len() == old(buffer)@.len(),
            r is Ok ==> read_outcome(
                self.source().len() as int,
                positions.start as int,
                positions.end as int,
                old(buffer)@.len() as int,
            ) is Ok && final(buffer)@ == self.source().subrange(
                positions.start as int,
                positions.end as int,
            ) + old(buffer)@.subrange(
                positions.end - positions.start,
                old(buffer)@.len() as int,
            ),
            read_outcome(
                self.source().len() as int,
                positions.start as int,
                positions.end as int,
                old(buffer)@.len() as int,
            ) is Err ==> r == read_outcome(
                self.source().len() as int,
                positions.start as int,
                positions.end as int,
                old(buffer)@.len() as int,
            ),
            r is Err ==> final(buffer)@ == old(buffer)@,
            r matches Err(e) ==> (read_outcome(
                self.source().len() as int,
                positions.start as int,
                positions.end as int,
                old(buffer)@.len() as int,
            ) is Ok ==> e == BmpReaderError::ReadError),
            self.reliable() ==> r == read_outcome(
                self.source().len() as int,
                positions.start as int,
                positions.end as int,
                old(buffer)@.len() as int,
            ),
    ;
}

/// Whether a chunk of `k` bytes can be taken from the bytes `rest`.
pub open spec fn has_chunk(rest: Seq<u8>, k: nat) -> bool {
    k > 0 && rest.len() >= k
}

/// The `len` bytes of `source` from byte `start` on; where they pass the end of `source` their
/// values are unknown.
pub open spec fn source_region(source: Seq<u8>, start: int, len: int) -> Seq<u8> {
    Seq::new(len as nat, |i: int| source[start + i])
}

/// A region that lies in its source is a subrange of it.
pub proof fn lemma_region_in_source(source: Seq<u8>, start: int, len: int)
    requires
        0 <= start,
        0 <= len,
        start + len <= source.len(),
    ensures
        source_region(source, start, len) == source.subrange(start, start + len),
{
    assert(source_region(source, start, len) =~= source.subrange(start, start + len));
}

/// A double-ended sequence of equally sized byte chunks cut from a byte region.
///
/// `next` cuts the first `chunk_len` bytes of the region that remains, `next_back` the last
/// ones; the two ends never overlap. A chunk handed out may be a view of a buffer that the
/// following call overwrites.
pub trait BmpReaderChunkIterator {
    /// The bytes of the region not yet handed out.
    spec fn remaining(&self) -> Seq<u8>;

    /// Whether every remaining chunk will be handed out: no read that the sequence makes fails.
    spec fn delivers(&self) -> bool;

    /// Length of every chunk handed out.
    spec fn chunk_len(&self) -> nat;

    /// The chunk handed out last.
    spec fn last(&self) -> Seq<u8>;

    /// Returns the chunk handed out last, so that it can be read again before the next call.
    fn current(&self) -> (r: &[u8])
        ensures
            r@ == self.last(),
    ;

    /// Hands out the first chunk of the remaining region.
    ///
    /// After a failed read the sequence is exhausted.
    fn next(&mut self) -> (r: Option<&[u8]>)
        ensures
            old(self).delivers() ==> final(self).delivers(),
            final(self).chunk_len() == old(self).chunk_len(),
            r matches Some(c) ==> final(self).last() == c@,
            r matches Some(c) ==> has_chunk(old(self).remaining(), old(self).chunk_len()) && c@
                == old(self).remaining().subrange(0, old(self).chunk_len() as int)
                && final(self).remaining() == old(self).remaining().subrange(
                old(self).chunk_len() as int,
                old(self).remaining().len() as int,
            ),
            r is None ==> !has_chunk(final(self).remaining(), final(self).chunk_len()),
            !has_chunk(old(self).remaining(), old(self).chunk_len()) ==> r is None,
            old(self).delivers() && has_chunk(old(self).remaining(), old(self).chunk_len()) ==> r is Some,
    ;

    /// Hands out the last chunk of the remaining region.
    ///
    /// After a failed read the sequence is exhausted.
    fn next_back(&mut self) -> (r: Option<&[u8]>)
        ensures
            old(self).delivers() ==> final(self).delivers(),
            final(self).chunk_len() == old(self).chunk_len(),
            r matches Some(c) ==> final(self).last() == c@,
            r matches Some(c) ==> has_chunk(old(self).remaining(), old(self).chunk_len()) && c@
                == old(self).remaining().subrange(
                old(self).remaining().len() - old(self).chunk_len(),
                old(self).remaining().len() as int,
            ) && final(self).remaining() == old(self).remaining().subrange(
                0,
                old(self).remaining().len() - old(self).chunk_len(),
            ),
            r is None ==> !has_chunk(final(self).remaining(), final(self).chunk_len()),
            !has_chunk(old(self).remaining(), old(self).chunk_len()) ==> r is None,
            old(self).delivers() && has_chunk(old(self).remaining(), old(self).chunk_len()) ==> r is Some,
    ;
}

/// A [`BmpReader`] over bytes in memory.
#[derive(Copy, Clone, Debug, PartialEq)]
pub struct SliceReader<'a> {
    image_data: &'a [u8],
    buffer_size: usize,
}

impl<'a> SliceReader<'a> {
    /// Creates a reader of `slice` with an internal buffer of [`INTERNAL_BUFFER_SIZE`] bytes.
    pub fn new(slice: &'a [u8]) -> (r: Self)
        ensures
            r.source() == slice@,
            r.reliable(),
            r.buffer_capacity() == INTERNAL_BUFFER_SIZE,
    {
        SliceReader { image_data: slice, buffer_size: INTERNAL_BUFFER_SIZE }
    }

    /// Creates a reader of `slice` whose chunked reads are limited to `buffer_size` bytes.
    pub fn with_buffer_size(slice: &'a [u8], buffer_size: usize) -> (r: Self)
        ensures
            r.source() == slice@,
            r.reliable(),
            r.buffer_capacity() == buffer_size,
    {
        SliceReader { image_data: slice, buffer_size }
    }

    /// Returns the chunks of `stride` bytes of the whole slice, or
    /// [`BmpReaderError::RequestedChunkTooLarge`] if `stride` exceeds the internal buffer size.
    pub fn chunks_exact(&self, stride: usize) -> (r: Result<SliceReaderIterator<'a>, BmpReaderError>)
        ensures
            stride > self.buffer_capacity() ==> r == Err::<SliceReaderIterator<'a>, BmpReaderError>(
                BmpReaderError::RequestedChunkTooLarge,
            ),
            stride <= self.buffer_capacity() ==> (r matches Ok(it) && it.remaining()
                == self.source() && it.chunk_len() == stride && it.delivers()),
    {
        if stride > self.buffer_size {
            return Err(BmpReaderError::RequestedChunkTooLarge);
        }
        Ok(SliceReaderIterator::new(self.image_data, stride))
    }
}

impl<'a> BmpReader for SliceReader<'a> {
    closed spec fn source(&self) -> Seq<u8> {
        self.image_data@
    }

    open spec fn reliable(&self) -> bool {
        true
    }

    closed spec fn buffer_capacity(&self) -> usize {
        self.buffer_size
    }

    fn internal_buffer_size(&self) -> (r: usize) {
        self.buffer_size
    }

    fn read(&self, positions: Range<usize>, buffer: &mut [u8]) -> (r: Result<(), BmpReaderError>) {
        let start = positions.start;
        let end = positions.end;
        if start <= end && end - start > buffer.len() {
            return Err(BmpReaderError::BufferTooSmall);
        }
        if start > end || end > self.image_data.len() {
            return Err(BmpReaderError::AddressOutOfBounds);
        }
        let n = end - start;
        let mut i: usize = 0;
        while i < n
            invariant
                n == end - start,
                end <= self.image_data@.len(),
                n <= buffer@.len(),
                buffer@.len() == old(buffer)@.len(),
                i <= n,
                forall|j: int| 0 <= j < i ==> buffer@[j] == self.image_data@[start + j],
                forall|j: int| n <= j < buffer@.len() ==> buffer@[j] == old(buffer)@[j],
            decreases n - i,
        {
            buffer[i] = self.image_data[start + i];
            i = i + 1;
        }
        assert(buffer@ =~= self.image_data@.subrange(start as int, end as int) + old(
            buffer,
        )@.subrange(n as int, old(buffer)@.len() as int));
        Ok(())
    }
}

/// Double-ended iterator over `stride`-sized chunks of a byte slice: from the front with `next`,
/// from the back with `next_back`.
///
/// The chunks are views of the slice itself: nothing is copied.
#[derive(Debug)]
pub struct SliceReaderIterator<'a> {
    data: &'a [u8],
    stride: usize,
    front: usize,
    back: usize,
    last: &'a [u8],
}

impl<'a> SliceReaderIterator<'a> {
    #[verifier::type_invariant]
    closed spec fn wf(&self) -> bool {
        &&& self.front <= self.back
        &&& self.back <= self.data@.len()
    }

    /// Creates an iterator over the chunks of `stride` bytes of `data`.
    pub fn new(data: &'a [u8], stride: usize) -> (r: Self)
        ensures
            r.remaining() == data@,
            r.chunk_len() == stride,
            r.delivers(),
    {
        let r = SliceReaderIterator { data, stride, front: 0, back: data.len(), last: &data[0..0] };
        assert(r.remaining() =~= data@);
        r
    }
}

impl<'a> BmpReaderChunkIterator for SliceReaderIterator<'a> {
    closed spec fn remaining(&self) -> Seq<u8> {
        self.data@.subrange(self.front as int, self.back as int)
    }

    open spec fn delivers(&self) -> bool {
        true
    }

    closed spec fn chunk_len(&self) -> nat {
        self.stride as nat
    }

    closed spec fn last(&self) -> Seq<u8> {
        self.last@
    }

    fn current(&self) -> (r: &[u8]) {
        self.last
    }

    fn next(&mut self) -> (r: Option<&[u8]>) {
        proof {
            use_type_invariant(&*self);
        }
        if self.stride > 0 && self.back - self.front >= self.stride {
            let start = self.front;
            let c = &self.data[start..start + self.stride];
            self.front = start + self.stride;
            self.last = c;
            assert(c@ =~= old(self).remaining().subrange(0, self.stride as int));
            assert(self.remaining() =~= old(self).remaining().subrange(
                self.stride as int,
                old(self).remaining().len() as int,
            ));
            Some(c)
        } else {
            None
        }
    }

    fn next_back(&mut self) -> (r: Option<&[u8]>) {
        proof {
            use_type_invariant(&*self);
        }
        if self.stride > 0 && self.back - self.front >= self.stride {
            let end = self.back;
            let c = &self.data[end - self.stride..end];
            self.back = end - self.stride;
            self.last = c;
            assert(c@ =~= old(self).remaining().subrange(
                old(self).remaining().len() - self.stride,
                old(self).remaining().len() as int,
            ));
            assert(self.remaining() =~= old(self).remaining().subrange(
                0,
                old(self).remaining().len() - self.stride,
            ));
            Some(c)
        } else {
            None
        }
    }
}

/// Position of a double-ended chunk sequence: bytes `front..back` of the source remain.
struct ChunkCursor {
    stride: usize,
    front: usize,
    back: usize,
}

impl ChunkCursor {
    #[verifier::type_invariant]
    closed spec fn wf(&self) -> bool {
        self.front <= self.back
    }

    /// The cursor with `front` and `back` replaced.
    fn with_bounds(&self, front: usize, back: usize) -> (r: ChunkCursor)
        requires
            front <= back,
        ensures
            r.stride == self.stride,
            r.front == front,
            r.back == back,
    {
        ChunkCursor { stride: self.stride, front, back }
    }

    fn front(&self) -> (r: usize)
        ensures
            r == self.front,
            r <= self.back,
    {
        proof {
            use_type_invariant(self);
        }
        self.front
    }
}

/// Double-ended sequence of `stride`-sized chunks read from a region of a [`BmpReader`]'s
/// source.
///
/// Each chunk is read into the one buffer of `stride` bytes that the sequence owns, so a chunk
/// handed out is overwritten by the next call.
pub struct ReaderChunks<'a, R: BmpReader> {
    reader: &'a R,
    cursor: ChunkCursor,
    buffer: Vec<u8>,
    last_len: usize,
}

impl<'a, R: BmpReader> ReaderChunks<'a, R> {
    /// Creates the sequence of chunks of `stride` bytes over the `count * stride` bytes that start
    /// at byte `start` of the reader's source.
    ///
    /// Fails with [`BmpReaderError::RequestedChunkTooLarge`] if `stride` exceeds the reader's
    /// internal buffer size, and with [`BmpReaderError::AddressOutOfBounds`] if the region ends
    /// beyond the largest address.
    pub fn new(reader: &'a R, start: usize, stride: usize, count: usize) -> (r: Result<
        Self,
        BmpReaderError,
    >)
        ensures
            stride > reader.buffer_capacity() ==> r == Err::<Self, BmpReaderError>(
                BmpReaderError::RequestedChunkTooLarge,
            ),
            stride <= reader.buffer_capacity() && start + count * stride > usize::MAX ==> r
                == Err::<Self, BmpReaderError>(BmpReaderError::AddressOutOfBounds),
            stride <= reader.buffer_capacity() && start + count * stride <= usize::MAX ==> (r matches Ok(
                it,
            ) && it.remaining() == source_region(
                reader.source(),
                start as int,
                count * stride,
            ) && it.chunk_len() == stride && (it.delivers() <==> reader.reliable() && start + count
                * stride <= reader.source().len())),
    {
        if stride > reader.internal_buffer_size() {
            return Err(BmpReaderError::RequestedChunkTooLarge);
        }
        if stride != 0 && count > (usize::MAX - start) / stride {
            proof {
                assert(count * stride > usize::MAX - start) by (nonlinear_arith)
                    requires
                        count > (usize::MAX - start) as int / stride as int,
                        stride > 0,
                ;
            }
            return Err(BmpReaderError::AddressOutOfBounds);
        }
        proof {
            if stride != 0 {
                assert(count * stride <= usize::MAX - start) by (nonlinear_arith)
                    requires
                        count <= (usize::MAX - start) as int / stride as int,
                        stride > 0,
                ;
            }
        }
        let end = start + count * stride;
        let buffer = vec![0u8; stride];
        let cursor = ChunkCursor { stride, front: start, back: end };
        let r = ReaderChunks { reader, cursor, buffer, last_len: 0 };
        assert(r.remaining() =~= source_region(reader.source(), start as int, count * stride));
        Ok(r)
    }

    /// Reads the `stride` bytes at `off` into the buffer.
    fn fill(&mut self, off: usize) -> (ok: bool)
        requires
            off + old(self).cursor.stride <= old(self).cursor.back,
        ensures
            final(self).reader == old(self).reader,
            final(self).cursor == old(self).cursor,
            final(self).last_len == old(self).last_len,
            final(self).buffer@.len() == old(self).buffer@.len(),
            !ok ==> final(self).buffer@ == old(self).buffer@,
            ok ==> old(self).cursor.stride <= final(self).buffer@.len(),
            ok ==> off + old(self).cursor.stride <= old(self).reader.source().len(),
            ok ==> final(self).buffer@.subrange(0, old(self).cursor.stride as int)
                == old(self).reader.source().subrange(off as int, off + old(self).cursor.stride),
            old(self).delivers() ==> ok,
    {
        let end = off + self.cursor.stride;
        let reader = self.reader;
        let res = reader.read(off..end, self.buffer.as_mut_slice());
        proof {
            if res is Ok {
                assert(self.buffer@.subrange(0, self.cursor.stride as int) =~= reader.source().subrange(
                    off as int,
                    end as int,
                ));
            }
        }
        res.is_ok()
    }
}

impl<'a, R: BmpReader> BmpReaderChunkIterator for ReaderChunks<'a, R> {
    closed spec fn remaining(&self) -> Seq<u8> {
        source_region(
            self.reader.source(),
            self.cursor.front as int,
            self.cursor.back - self.cursor.front,
        )
    }

    closed spec fn delivers(&self) -> bool {
        &&& self.reader.reliable()
        &&& self.cursor.back <= self.reader.source().len()
        &&& self.buffer@.len() == self.cursor.stride
    }

    closed spec fn chunk_len(&self) -> nat {
        self.cursor.stride as nat
    }

    closed spec fn last(&self) -> Seq<u8> {
        self.buffer@.subrange(
            0,
            if self.last_len <= self.buffer@.len() {
                self.last_len as int
            } else {
                self.buffer@.len() as int
            },
        )
    }

    fn current(&self) -> (r: &[u8]) {
        let buf = self.buffer.as_slice();
        let n = if self.last_len <= buf.len() {
            self.last_len
        } else {
            buf.len()
        };
        &buf[0..n]
    }

    fn next(&mut self) -> (r: Option<&[u8]>) {
        proof {
            use_type_invariant(&self.cursor);
        }
        let stride = self.cursor.stride;
        let front = self.cursor.front();
        if stride > 0 && self.cursor.back - front >= stride {
            if self.fill(front) {
                self.cursor = self.cursor.with_bounds(front + stride, self.cursor.back);
                assert(self.remaining() =~= old(self).remaining().subrange(
                    stride as int,
                    old(self).remaining().len() as int,
                ));
                self.last_len = stride;
                let buf = self.buffer.as_slice();
                let c = &buf[0..stride];
                assert(c@ =~= old(self).remaining().subrange(0, stride as int));
                Some(c)
            } else {
                self.cursor = self.cursor.with_bounds(front, front);
                None
            }
        } else {
            None
        }
    }

    fn next_back(&mut self) -> (r: Option<&[u8]>) {
        proof {
            use_type_invariant(&self.cursor);
        }
        let stride = self.cursor.stride;
        let front = self.cursor.front();
        let back = self.cursor.back;
        if stride > 0 && back - front >= stride {
            let off = back - stride;
            if self.fill(off) {
                self.cursor = self.cursor.with_bounds(front, off);
                assert(self.remaining() =~= old(self).remaining().subrange(
                    0,
                    old(self).remaining().len() - stride,
                ));
                self.last_len = stride;
                let buf = self.buffer.as_slice();
                let c = &buf[0..stride];
                assert(c@ =~= old(self).remaining().subrange(
                    old(self).remaining().len() - stride,
                    old(self).remaining().len() as int,
                ));
                Some(c)
            } else {
                self.cursor = self.cursor.with_bounds(front, front);
                None
            }
        } else {
            None
        }
    }
}

} // verus!
