//! Where the fields of the record lie.
//!
//! The record holds, in declaration order, a byte buffer, an unsigned length
//! field, a signed secondary field and an unsigned guard field. The buffer
//! starts at offset zero; the three numeric fields are four bytes wide each.

use vstd::prelude::*;

verus! {

/// Width in bytes of each of the three numeric fields.
pub const FIELD_WIDTH: usize = 4;

/// The largest buffer a record can have: the length field must be able to hold
/// the buffer's size, and the whole record must be addressable.
pub const MAX_BUFFER_SIZE: usize = 0xffff_fff0;

/// How the numeric fields are placed behind the buffer.
#[derive(Clone, Copy, Debug, PartialEq, Eq, Structural)]
pub enum Packing {
    /// Each field follows the previous one directly.
    Packed,
    /// Each field starts at a multiple of its width, with padding where needed.
    Natural,
}

/// The mathematical model of a layout: every offset as a natural number.
pub struct Layout {
    pub buffer_size: nat,
    pub length_offset: nat,
    pub secondary_offset: nat,
    pub guard_offset: nat,
    pub total: nat,
}

/// The smallest multiple of the field width that is not below `n`.
pub open spec fn align_up(n: nat) -> nat {
    ((n + 3) / 4 * 4) as nat
}

/// Whether position `i` lies in one of the half-open ranges.
pub open spec fn in_ranges(ranges: Seq<(usize, usize)>, i: int) -> bool {
    exists|k: int| 0 <= k < ranges.len() && (#[trigger] ranges[k]).0 <= i < ranges[k].1
}

impl Layout {
    /// The fields lie in declaration order without overlap, inside the record,
    /// and the length field is wide enough for the buffer's size.
    pub open spec fn wf(self) -> bool {
        &&& self.buffer_size <= u32::MAX
        &&& self.buffer_size <= self.length_offset
        &&& self.length_offset + FIELD_WIDTH <= self.secondary_offset
        &&& self.secondary_offset + FIELD_WIDTH <= self.guard_offset
        &&& self.guard_offset + FIELD_WIDTH <= self.total
        &&& self.total <= usize::MAX
    }

    /// The layout of a record with a buffer of `buffer_size` bytes.
    pub open spec fn of(buffer_size: nat, packing: Packing) -> Layout {
        let length_offset = match packing {
            Packing::Packed => buffer_size,
            Packing::Natural => align_up(buffer_size),
        };
        Layout {
            buffer_size,
            length_offset,
            secondary_offset: length_offset + 4,
            guard_offset: length_offset + 8,
            total: length_offset + 12,
        }
    }

    /// The half-open byte ranges of the watched fields: length, secondary and
    /// guard. The buffer is never watched.
    pub open spec fn watched(self) -> Seq<(usize, usize)> {
        seq![
            (self.length_offset as usize, (self.length_offset + FIELD_WIDTH) as usize),
            (self.secondary_offset as usize, (self.secondary_offset + FIELD_WIDTH) as usize),
            (self.guard_offset as usize, (self.guard_offset + FIELD_WIDTH) as usize),
        ]
    }

    /// The start offset of each field after the first.
    pub open spec fn separators(self) -> Seq<usize> {
        seq![
            self.length_offset as usize,
            self.secondary_offset as usize,
            self.guard_offset as usize,
        ]
    }

    /// Whether byte `i` lies in a watched range.
    pub open spec fn is_watched(self, i: int) -> bool {
        in_ranges(self.watched(), i)
    }
}

/// The watched bytes are those of the length, secondary and guard fields.
/// They lie behind the buffer and inside the record.
pub proof fn lemma_watched_fields(layout: Layout, i: int)
    requires
        layout.wf(),
    ensures
        layout.is_watched(i) <==> ({
            ||| layout.length_offset <= i < layout.length_offset + FIELD_WIDTH
            ||| layout.secondary_offset <= i < layout.secondary_offset + FIELD_WIDTH
            ||| layout.guard_offset <= i < layout.guard_offset + FIELD_WIDTH
        }),
        layout.is_watched(i) ==> layout.buffer_size <= i < layout.total,
{
    let ranges = layout.watched();
    if layout.length_offset <= i < layout.length_offset + FIELD_WIDTH {
        assert(ranges[0].0 <= i < ranges[0].1);
    }
    if layout.secondary_offset <= i < layout.secondary_offset + FIELD_WIDTH {
        assert(ranges[1].0 <= i < ranges[1].1);
    }
    if layout.guard_offset <= i < layout.guard_offset + FIELD_WIDTH {
        assert(ranges[2].0 <= i < ranges[2].1);
    }
}

/// Byte offsets of the record's fields, computed once and then only read.
#[derive(Clone, Copy, Debug)]
pub struct LayoutDescriptor {
    buffer_size: usize,
    length_offset: usize,
    secondary_offset: usize,
    guard_offset: usize,
    total: usize,
}

impl View for LayoutDescriptor {
    type V = Layout;

    closed spec fn view(&self) -> Layout {
        Layout {
            buffer_size: self.buffer_size as nat,
            length_offset: self.length_offset as nat,
            secondary_offset: self.secondary_offset as nat,
            guard_offset: self.guard_offset as nat,
            total: self.total as nat,
        }
    }
}

impl LayoutDescriptor {
    /// Computes the layout of a record whose buffer holds `buffer_size` bytes.
    pub fn new(buffer_size: usize, packing: Packing) -> (d: LayoutDescriptor)
        requires
            buffer_size <= MAX_BUFFER_SIZE,
        ensures
            d@ == Layout::of(buffer_size as nat, packing),
            d@.wf(),
    {
        let length_offset: usize = match packing {
            Packing::Packed => buffer_size,
            Packing::Natural => (buffer_size + 3) / 4 * 4,
        };
        LayoutDescriptor {
            buffer_size,
            length_offset,
            secondary_offset: length_offset + 4,
            guard_offset: length_offset + 8,
            total: length_offset + 12,
        }
    }

    /// The number of bytes in the buffer.
    pub fn buffer_size(&self) -> (n: usize)
        ensures
            n == self@.buffer_size,
    {
        self.buffer_size
    }

    /// The byte range of the buffer.
    pub fn buffer_range(&self) -> (r: (usize, usize))
        ensures
            r.0 == 0,
            r.1 == self@.buffer_size,
    {
        (0, self.buffer_size)
    }

    /// The byte range of the length field.
    pub fn length_range(&self) -> (r: (usize, usize))
        requires
            self@.wf(),
        ensures
            r.0 == self@.length_offset,
            r.1 == self@.length_offset + FIELD_WIDTH,
    {
        (self.length_offset, self.length_offset + FIELD_WIDTH)
    }

    /// The byte range of the secondary field.
    pub fn secondary_range(&self) -> (r: (usize, usize))
        requires
            self@.wf(),
        ensures
            r.0 == self@.secondary_offset,
            r.1 == self@.secondary_offset + FIELD_WIDTH,
    {
        (self.secondary_offset, self.secondary_offset + FIELD_WIDTH)
    }

    /// The byte range of the guard field.
    pub fn guard_range(&self) -> (r: (usize, usize))
        requires
            self@.wf(),
        ensures
            r.0 == self@.guard_offset,
            r.1 == self@.guard_offset + FIELD_WIDTH,
    {
        (self.guard_offset, self.guard_offset + FIELD_WIDTH)
    }

    /// The size of the whole record in bytes.
    pub fn total_size(&self) -> (n: usize)
        ensures
            n == self@.total,
    {
        self.total
    }

    /// The byte ranges to highlight: one per watched field.
    pub fn watched_ranges(&self) -> (ranges: Vec<(usize, usize)>)
        requires
            self@.wf(),
        ensures
            ranges@ == self@.watched(),
    {
        let mut ranges: Vec<(usize, usize)> = Vec::new();
        ranges.push(self.length_range());
        ranges.push(self.secondary_range());
        ranges.push(self.guard_range());
        assert(ranges@ =~= self@.watched());
        ranges
    }

    /// The positions before which a divider is drawn.
    pub fn separator_positions(&self) -> (positions: Vec<usize>)
        ensures
            positions@ == self@.separators(),
    {
        let mut positions: Vec<usize> = Vec::new();
        positions.push(self.length_offset);
        positions.push(self.secondary_offset);
        positions.push(self.guard_offset);
        assert(positions@ =~= self@.separators());
        positions
    }
}

} // verus!
