//! Layout of the header at the start of a shared segment.
//!
//! In the mapping the two indices are atomics, each on a 64-byte line of its
//! own; here the header is held as the plain values the ring logic reads.
use vstd::prelude::*;

verus! {

/// Stands for a field that, in the mapping, sits on a 64-byte cache line of its
/// own (so that the producer's index and the consumer's index never share a
/// line); here it only wraps the field's value, the mapped layout being that of
/// `HEADER_SIZE`.
#[derive(Clone, Copy, Debug, PartialEq, Eq)]
pub struct CacheAligned<T>(pub T);

/// Byte size of the header in the mapping: two 64-byte lines for the indices
/// and a third for capacity, slot size and magic number.
pub const HEADER_SIZE: usize = 192;

/// Fixed-offset header of the shared segment.
#[derive(Clone, Copy, Debug, PartialEq, Eq)]
pub struct SharedHeader {
    /// Write index. Advanced by the producer, read by the consumer.
    pub head: CacheAligned<usize>,
    /// Read index. Advanced by the consumer, read by the producer.
    pub tail: CacheAligned<usize>,
    /// Total number of slots. Must be a power of two.
    pub capacity: usize,
    /// Size of a single slot in bytes.
    pub item_size: usize,
    /// Magic number marking an initialized segment.
    pub magic: u32,
}

impl SharedHeader {
    /// `'XIPC'`.
    pub const MAGIC_VALUE: u32 = 0x58495043;

    /// The header of a segment set up for `capacity` slots of `item_size` bytes,
    /// with both indices at zero.
    pub open spec fn is_initialized(self, capacity: usize, item_size: usize) -> bool {
        &&& self.head.0 == 0
        &&& self.tail.0 == 0
        &&& self.capacity == capacity
        &&& self.item_size == item_size
        &&& self.magic == Self::MAGIC_VALUE
    }

    /// The header of a freshly created, zero-filled segment.
    pub fn zeroed() -> (h: Self)
        ensures
            h.head.0 == 0,
            h.tail.0 == 0,
            h.capacity == 0,
            h.item_size == 0,
            h.magic == 0,
    {
        SharedHeader { head: CacheAligned(0), tail: CacheAligned(0), capacity: 0, item_size: 0, magic: 0 }
    }
}

} // verus!
