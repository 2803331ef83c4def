//! Errors of the channel, and the shared segment as the ring logic sees it.
use vstd::prelude::*;
use crate::layout::{SharedHeader, HEADER_SIZE};

verus! {

/// `std::io::Error` is carried through unchanged; nothing is read from it.
#[verifier::external_type_specification]
#[verifier::external_body]
pub struct ExIoError(std::io::Error);

/// Why setting up, attaching to or pushing onto a channel failed.
#[derive(Debug)]
pub enum IpcError {
    /// The backing file or its mapping could not be created or opened.
    Io(std::io::Error),
    /// The segment does not carry the magic number of an initialized header.
    InvalidMagic { expected: u32, found: u32 },
    /// The ring holds as many items as it has slots.
    BufferFull,
    /// The capacity is not a power of two.
    InvalidCapacity,
    /// The segment is too small for the capacity, or its slot size is not the
    /// size of the item type.
    ConfigMismatch { capacity: usize, item_size: usize },
}

/// A shared segment: its header, and its data area as a sequence of slots.
///
/// A mapping of `HEADER_SIZE + n * size_of::<T>()` bytes holds `n` slots.
pub struct SharedRegion<T> {
    pub header: SharedHeader,
    pub slots: Vec<T>,
}

impl<T: Copy> SharedRegion<T> {
    /// A freshly created segment: a zero-filled header and `slot_count` slots
    /// that read as `blank`, the value of an all-zero item.
    pub fn create(slot_count: usize, blank: T) -> (region: Self)
        ensures
            region.header.head.0 == 0,
            region.header.tail.0 == 0,
            region.header.capacity == 0,
            region.header.item_size == 0,
            region.header.magic == 0,
            region.slots@ == Seq::new(slot_count as nat, |i: int| blank),
    {
        let mut slots: Vec<T> = Vec::new();
        let mut i: usize = 0;
        while i < slot_count
            invariant
                i <= slot_count,
                slots@ == Seq::new(i as nat, |j: int| blank),
            decreases slot_count - i,
        {
            slots.push(blank);
            i = i + 1;
            assert(slots@ =~= Seq::new(i as nat, |j: int| blank));
        }
        SharedRegion { header: SharedHeader::zeroed(), slots }
    }

    /// Byte length of the mapping this segment stands for.
    pub fn len(&self) -> (n: usize)
        requires
            HEADER_SIZE + self.slots.len() * core::mem::size_of::<T>() <= usize::MAX,
        ensures
            n == HEADER_SIZE + self.slots.len() * core::mem::size_of::<T>(),
    {
        HEADER_SIZE + self.slots.len() * core::mem::size_of::<T>()
    }
}

} // verus!
