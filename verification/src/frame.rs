//! The record under attack, held as its raw byte image.
//!
//! Every read and write goes through the image, so a field read after a write
//! past the buffer always observes what that write left behind.

use crate::layout::{Layout, LayoutDescriptor};
use vstd::prelude::*;

verus! {

/// The value the secondary field is created with.
pub const INITIAL_SECONDARY: i32 = 40_000;

/// The value the guard field is created with.
pub const GUARD_MAGIC: u32 = 0xdead_beef;

/// The unsigned little-endian number in the four bytes of `bytes` from `at` on.
pub open spec fn le_u32(bytes: Seq<u8>, at: int) -> int {
    bytes[at] + 0x100 * bytes[at + 1] + 0x1_0000 * bytes[at + 2] + 0x100_0000 * bytes[at + 3]
}

/// The signed little-endian number in the four bytes of `bytes` from `at` on,
/// in two's complement.
pub open spec fn le_i32(bytes: Seq<u8>, at: int) -> int {
    if le_u32(bytes, at) < 0x8000_0000 {
        le_u32(bytes, at)
    } else {
        le_u32(bytes, at) - 0x1_0000_0000
    }
}

/// Byte `k` of the little-endian encoding of `v`.
pub open spec fn le_byte(v: nat, k: int) -> u8 {
    if k == 0 {
        (v % 0x100) as u8
    } else if k == 1 {
        (v / 0x100 % 0x100) as u8
    } else if k == 2 {
        (v / 0x1_0000 % 0x100) as u8
    } else {
        (v / 0x100_0000 % 0x100) as u8
    }
}

/// The byte image of a freshly created record: the buffer and any padding
/// zeroed, the length field holding the buffer's size, the secondary field
/// and the guard holding their known values.
pub open spec fn initial_image(layout: Layout) -> Seq<u8> {
    Seq::new(
        layout.total,
        |i: int|
            if layout.length_offset <= i < layout.length_offset + 4 {
                le_byte(layout.buffer_size, i - layout.length_offset)
            } else if layout.secondary_offset <= i < layout.secondary_offset + 4 {
                le_byte(INITIAL_SECONDARY as nat, i - layout.secondary_offset)
            } else if layout.guard_offset <= i < layout.guard_offset + 4 {
                le_byte(GUARD_MAGIC as nat, i - layout.guard_offset)
            } else {
                0u8
            },
    )
}

/// A freshly created record reads back the values it was created with.
pub proof fn lemma_initial_fields(layout: Layout)
    requires
        layout.wf(),
    ensures
        le_u32(initial_image(layout), layout.length_offset as int) == layout.buffer_size,
        le_i32(initial_image(layout), layout.secondary_offset as int) == INITIAL_SECONDARY,
        le_u32(initial_image(layout), layout.guard_offset as int) == GUARD_MAGIC,
        forall|i: int| 0 <= i < layout.buffer_size ==> initial_image(layout)[i] == 0,
{
}

/// The record: a buffer followed by a length field that consumers trust not
/// to exceed the buffer's size, a secondary field and a guard.
#[derive(Debug)]
pub struct Frame {
    layout: LayoutDescriptor,
    bytes: Vec<u8>,
}

impl View for Frame {
    type V = Seq<u8>;

    /// The record's byte image.
    closed spec fn view(&self) -> Seq<u8> {
        self.bytes@
    }
}

impl Frame {
    /// The layout the record was created with.
    pub closed spec fn layout(&self) -> Layout {
        self.layout@
    }

    /// The image is exactly as long as the layout says.
    pub open spec fn wf(&self) -> bool {
        &&& self.layout().wf()
        &&& self@.len() == self.layout().total
    }

    /// Creates a record in its valid initial state.
    pub fn new(layout: LayoutDescriptor) -> (frame: Frame)
        requires
            layout@.wf(),
        ensures
            frame.wf(),
            frame.layout() == layout@,
            frame@ == initial_image(layout@),
            le_u32(frame@, layout@.length_offset as int) == layout@.buffer_size,
            le_i32(frame@, layout@.secondary_offset as int) == INITIAL_SECONDARY,
            le_u32(frame@, layout@.guard_offset as int) == GUARD_MAGIC,
    {
        proof {
            lemma_initial_fields(layout@);
        }
        let total: usize = layout.total_size();
        let mut bytes: Vec<u8> = Vec::new();
        let mut i: usize = 0;
        while i < total
            invariant
                i <= total,
                bytes@.len() == i,
                forall|j: int| 0 <= j < i ==> bytes@[j] == 0,
            decreases total - i,
        {
            bytes.push(0u8);
            i += 1;
        }
        store_u32(&mut bytes, layout.length_range().0, layout.buffer_size() as u32);
        store_u32(&mut bytes, layout.secondary_range().0, INITIAL_SECONDARY as u32);
        store_u32(&mut bytes, layout.guard_range().0, GUARD_MAGIC);
        assert(bytes@ =~= initial_image(layout@));
        Frame { layout, bytes }
    }

    /// The layout the record was created with.
    pub fn descriptor(&self) -> (d: LayoutDescriptor)
        ensures
            d@ == self.layout(),
    {
        self.layout
    }

    /// The record's full byte image.
    pub fn as_bytes(&self) -> (bytes: &[u8])
        ensures
            bytes@ == self@,
    {
        self.bytes.as_slice()
    }

    /// Writes one byte at `offset` from the start of the buffer. The offset is
    /// not held against the buffer's size: past the buffer the write lands on
    /// whatever the layout places there.
    pub fn write_byte(&mut self, offset: usize, value: u8)
        requires
            old(self).wf(),
            offset < old(self).layout().total,
        ensures
            final(self).wf(),
            final(self).layout() == old(self).layout(),
            final(self)@ == old(self)@.update(offset as int, value),
    {
        self.bytes.set(offset, value);
    }

    /// Reads the length field from the byte image.
    pub fn read_len_volatile(&self) -> (len: u32)
        requires
            self.wf(),
        ensures
            len == le_u32(self@, self.layout().length_offset as int),
    {
        load_u32(&self.bytes, self.layout.length_range().0)
    }

    /// Reads the secondary field from the byte image.
    pub fn read_num_volatile(&self) -> (num: i32)
        requires
            self.wf(),
        ensures
            num == le_i32(self@, self.layout().secondary_offset as int),
    {
        let raw: u32 = load_u32(&self.bytes, self.layout.secondary_range().0);
        if raw < 0x8000_0000 {
            raw as i32
        } else {
            (raw as i64 - 0x1_0000_0000) as i32
        }
    }

    /// Reads the guard field from the byte image.
    pub fn read_guard_volatile(&self) -> (guard: u32)
        requires
            self.wf(),
        ensures
            guard == le_u32(self@, self.layout().guard_offset as int),
    {
        load_u32(&self.bytes, self.layout.guard_range().0)
    }
}

/// Decodes the little-endian number in `bytes[at..at + 4]`.
fn load_u32(bytes: &Vec<u8>, at: usize) -> (v: u32)
    requires
        at + 4 <= bytes.len(),
    ensures
        v == le_u32(bytes@, at as int),
{
    let b0: u32 = bytes[at] as u32;
    let b1: u32 = bytes[at + 1] as u32;
    let b2: u32 = bytes[at + 2] as u32;
    let b3: u32 = bytes[at + 3] as u32;
    b0 + 0x100 * b1 + 0x1_0000 * b2 + 0x100_0000 * b3
}

/// Encodes `v` little-endian into `bytes[at..at + 4]`.
fn store_u32(bytes: &mut Vec<u8>, at: usize, v: u32)
    requires
        at + 4 <= old(bytes).len(),
    ensures
        final(bytes)@.len() == old(bytes)@.len(),
        forall|i: int|
            0 <= i < old(bytes)@.len() ==> final(bytes)@[i] == if at <= i < at + 4 {
                le_byte(v as nat, i - at)
            } else {
                old(bytes)@[i]
            },
{
    bytes.set(at, (v % 0x100) as u8);
    bytes.set(at + 1, (v / 0x100 % 0x100) as u8);
    bytes.set(at + 2, (v / 0x1_0000 % 0x100) as u8);
    bytes.set(at + 3, (v / 0x100_0000 % 0x100) as u8);
}

} // verus!
