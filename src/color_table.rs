//! Palette of indexed images: a borrowed region of 4-byte `B, G, R, 0` entries.
use vstd::prelude::*;

verus! {

/// Color of palette entry `index` in the table bytes `t`, as `0x00RRGGBB`, or `None` when the
/// table holds no such entry.
pub open spec fn entry_color(t: Seq<u8>, index: int) -> Option<u32> {
    if 0 <= index < t.len() / 4 {
        Some(
            (t[4 * index] as int + 256 * (t[4 * index + 1] as int) + 65536 * (t[4 * index
                + 2] as int)) as u32,
        )
    } else {
        None
    }
}

/// Color table of an indexed BMP image.
///
/// Borrows its bytes from the same buffer as the header it was parsed with.
#[derive(Copy, Clone, Debug, PartialEq, Eq)]
pub struct ColorTable<'a> {
    data: &'a [u8],
}

impl<'a> View for ColorTable<'a> {
    type V = Seq<u8>;

    closed spec fn view(&self) -> Seq<u8> {
        self.data@
    }
}

impl<'a> ColorTable<'a> {
    pub(crate) fn new(data: &'a [u8]) -> (r: Self)
        ensures
            r@ == data@,
    {
        ColorTable { data }
    }

    /// Number of entries in the table.
    pub fn len(&self) -> (r: usize)
        ensures
            r == self@.len() / 4,
    {
        self.data.len() / 4
    }

    /// Whether the table holds no entry.
    pub fn is_empty(&self) -> (r: bool)
        ensures
            r == (self@.len() / 4 == 0),
    {
        self.data.len() / 4 == 0
    }

    /// Color of entry `index` as `0x00RRGGBB`, or `None` if `index` is not below
    /// [`len`](Self::len).
    pub fn get(&self, index: u32) -> (r: Option<u32>)
        ensures
            r == entry_color(self@, index as int),
    {
        let n = self.data.len() / 4;
        if (index as usize) < n {
            let off = index as usize * 4;
            let color = self.data[off] as u32 + (self.data[off + 1] as u32) * 256 + (self.data[off
                + 2] as u32) * 65536;
            Some(color)
        } else {
            None
        }
    }
}

} // verus!
