//! Configuration of a channel: its name, its capacity, and where its segment lives.
use vstd::prelude::*;
use vstd::string::StringExecFns;
use core::marker::PhantomData;
use crate::layout::HEADER_SIZE;
use crate::mmap::{IpcError, SharedRegion};
use crate::ring_buffer::{Producer, Consumer, region_items};
use crate::protocol::{producer_sees, consumer_sees};
use crate::ring_index::power_of_two;

verus! {

broadcast use vstd::string::to_string_from_display_ensures_for_str;

/// Builder for configuring and establishing an IPC ring buffer connection.
pub struct IpcBuilder<T: Copy> {
    name: String,
    capacity: usize,
    _marker: PhantomData<T>,
}

/// Capacity of a builder on which `capacity` has not been called.
pub const DEFAULT_CAPACITY: usize = 256;

impl<T: Copy> IpcBuilder<T> {
    /// The logical name of the segment.
    pub closed spec fn spec_name(self) -> Seq<char> {
        self.name@
    }

    /// The configured number of slots.
    pub closed spec fn spec_capacity(self) -> usize {
        self.capacity
    }

    /// Byte length of the segment for this builder's capacity.
    pub open spec fn spec_segment_size(self) -> int {
        HEADER_SIZE + self.spec_capacity() * core::mem::size_of::<T>()
    }

    /// Creates a new builder for a shared memory segment with the given logical name.
    pub fn new(name: &str) -> (b: Self)
        ensures
            b.spec_name() == name@,
            b.spec_capacity() == DEFAULT_CAPACITY,
    {
        IpcBuilder { name: name.to_string(), capacity: DEFAULT_CAPACITY, _marker: PhantomData }
    }

    /// Sets the maximum capacity of the ring buffer. Must be a power of two.
    pub fn capacity(self, size: usize) -> (b: Self)
        ensures
            b.spec_name() == self.spec_name(),
            b.spec_capacity() == size,
    {
        let mut b = self;
        b.capacity = size;
        b
    }

    /// The configured number of slots.
    pub fn get_capacity(&self) -> (c: usize)
        ensures
            c == self.spec_capacity(),
    {
        self.capacity
    }

    /// Path of the segment on systems with `/dev/shm`.
    pub fn resolve_path(&self) -> (path: String)
        ensures
            path@ == "/dev/shm/xfeatures_ipc_"@ + self.spec_name(),
    {
        String::from_str("/dev/shm/xfeatures_ipc_").concat(self.name.as_str())
    }

    /// File name of the segment, in the temporary directory, on other systems.
    pub fn temp_file_name(&self) -> (file: String)
        ensures
            file@ == "xfeatures_ipc_"@ + self.spec_name() + ".shm"@,
    {
        String::from_str("xfeatures_ipc_").concat(self.name.as_str()).concat(".shm")
    }

    /// Byte length of the segment, the header followed by `capacity` slots, or
    /// `None` where it does not fit in a `usize`.
    pub fn segment_size(&self) -> (size: Option<usize>)
        ensures
            size == if self.spec_segment_size() <= usize::MAX {
                Some(self.spec_segment_size() as usize)
            } else {
                None::<usize>
            },
    {
        let item_size = core::mem::size_of::<T>();
        match self.capacity.checked_mul(item_size) {
            Some(data_size) => HEADER_SIZE.checked_add(data_size),
            None => {
                proof {
                    if item_size > 0 {
                        vstd::arithmetic::mul::lemma_mul_inequality(1, item_size as int, self.capacity as int);
                        vstd::arithmetic::mul::lemma_mul_is_commutative(item_size as int, self.capacity as int);
                    }
                }
                None
            },
        }
    }

    /// Sets up a channel whose segment is held in this process: a zero-filled
    /// segment of `segment_size` bytes (its slots reading as `blank`), its
    /// producer, which initializes the header, and its consumer, attached to it.
    pub fn build_in_memory(self, blank: T) -> (r: Result<(SharedRegion<T>, Producer<T>, Consumer<T>), IpcError>)
        requires
            self.spec_segment_size() <= usize::MAX,
        ensures
            match r {
                Ok((region, producer, consumer)) => {
                    let cap = self.spec_capacity();
                    &&& power_of_two(cap as int)
                    &&& region.header.is_initialized(cap, core::mem::size_of::<T>())
                    &&& region.slots@ == Seq::new(cap as nat, |i: int| blank)
                    &&& producer.spec_capacity() == cap
                    &&& consumer.spec_capacity() == cap
                    &&& producer.known_tail() == 0
                    &&& consumer.known_head() == 0
                    &&& producer_sees(producer.known_tail(), region.header.head.0, region.header.tail.0, cap)
                    &&& consumer_sees(consumer.known_head(), region.header.head.0, region.header.tail.0, cap)
                    &&& region_items(region, cap).len() == 0
                },
                Err(IpcError::InvalidCapacity) => !power_of_two(self.spec_capacity() as int),
                Err(_) => false,
            },
    {
        let mut region = SharedRegion::create(self.capacity, blank);
        assert(region.slots.len() == self.capacity);
        let mem_len = region.len();
        let producer = match Producer::init(&mut region.header, mem_len, self.capacity) {
            Ok(p) => p,
            Err(e) => return Err(e),
        };
        let consumer = match Consumer::new(&region.header) {
            Ok(c) => c,
            Err(e) => return Err(e),
        };
        Ok((region, producer, consumer))
    }
}

} // verus!
