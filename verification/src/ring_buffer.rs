//! The producer and consumer halves of the ring.
//!
//! Each half keeps a local copy of the other half's index and reads the shared
//! one only when its copy says the ring is full (producer) or empty (consumer).
//! A push or pop is split into the decisions made here and the memory accesses
//! around them: `begin_push`/`push_with_tail` and `begin_pop`/`pop_with_head`
//! decide which slot to touch and where the index goes next; `push` and `pop`
//! carry them out on a `SharedRegion`.
use vstd::prelude::*;
use core::marker::PhantomData;
use crate::layout::{SharedHeader, HEADER_SIZE};
use crate::mmap::{IpcError, SharedRegion};
use crate::ring_index::{power_of_two, distance, slot_of, ring_items, lemma_power_of_two_bits, lemma_mask_is_mod};
use crate::protocol::{
    producer_sees, consumer_sees, header_invariant, push_effect, pop_effect, lemma_push_effect, lemma_pop_effect,
};

verus! {

/// Whether `n` is a power of two.
pub fn is_power_of_two(n: usize) -> (b: bool)
    ensures
        b == power_of_two(n as int),
{
    proof {
        lemma_power_of_two_bits(n);
    }
    n > 0 && (n & (n - 1)) == 0
}

/// The items in the segment, oldest first, for a ring of `capacity` slots.
pub open spec fn region_items<T>(region: SharedRegion<T>, capacity: usize) -> Seq<T> {
    ring_items(region.slots@, region.header.head.0, region.header.tail.0, capacity)
}

/// `after` is `before` with the write index moved to `head`.
pub open spec fn header_with_head(before: SharedHeader, after: SharedHeader, head: usize) -> bool {
    &&& after.head.0 == head
    &&& after.tail == before.tail
    &&& after.capacity == before.capacity
    &&& after.item_size == before.item_size
    &&& after.magic == before.magic
}

/// `after` is `before` with the read index moved to `tail`.
pub open spec fn header_with_tail(before: SharedHeader, after: SharedHeader, tail: usize) -> bool {
    &&& after.tail.0 == tail
    &&& after.head == before.head
    &&& after.capacity == before.capacity
    &&& after.item_size == before.item_size
    &&& after.magic == before.magic
}

/// What the producer does next in a push.
#[derive(Clone, Copy, Debug, PartialEq, Eq, Structural)]
pub enum PushStep {
    /// Write the item into slot `index`, then publish `next_head` as the write index.
    Write { index: usize, next_head: usize },
    /// The local copy of the read index shows no room: read the shared one.
    RefreshTail,
    /// The ring is full.
    Full,
}

/// What the consumer does next in a pop.
#[derive(Clone, Copy, Debug, PartialEq, Eq, Structural)]
pub enum PopStep {
    /// Read the item from slot `index`, then publish `next_tail` as the read index.
    Read { index: usize, next_tail: usize },
    /// The local copy of the write index shows nothing to read: read the shared one.
    RefreshHead,
    /// The ring is empty.
    Empty,
}

/// SPSC ring buffer producer.
pub struct Producer<T: Copy> {
    capacity: usize,
    mask: usize,
    cached_tail: usize,
    _marker: PhantomData<T>,
}

/// SPSC ring buffer consumer.
pub struct Consumer<T: Copy> {
    capacity: usize,
    mask: usize,
    cached_head: usize,
    _marker: PhantomData<T>,
}

impl<T: Copy> Producer<T> {
    #[verifier::type_invariant]
    spec fn well_formed(self) -> bool {
        &&& power_of_two(self.capacity as int)
        &&& self.mask == self.capacity - 1
    }

    /// Number of slots of the ring.
    pub closed spec fn spec_capacity(self) -> usize {
        self.capacity
    }

    /// The producer's copy of the read index.
    pub closed spec fn known_tail(self) -> usize {
        self.cached_tail
    }

    /// The step a push takes given the write index `head`, when the read index
    /// is known to be `tail`.
    pub open spec fn push_step(self, head: usize, tail: usize, stale: PushStep) -> PushStep {
        if distance(head, tail) < self.spec_capacity() {
            PushStep::Write { index: slot_of(head, self.spec_capacity()) as usize, next_head: head.wrapping_add(1) }
        } else {
            stale
        }
    }

    /// What a push decides once the read index `tail` is known: it writes
    /// exactly when the ring holds fewer than `capacity` items, into the slot
    /// `head % capacity`, and then the write index moves one step, so that the
    /// ring holds one item more; otherwise the ring is full. The same decision
    /// is the one `push_effect` takes with the read index as the copy.
    pub proof fn lemma_push_decision(self, head: usize, tail: usize, slots: Seq<T>, value: T)
        requires
            power_of_two(self.spec_capacity() as int),
            slots.len() >= self.spec_capacity(),
            distance(head, tail) <= self.spec_capacity(),
        ensures
            ({
                let cap = self.spec_capacity();
                let step = self.push_step(head, tail, PushStep::Full);
                let items = ring_items(slots, head, tail, cap);
                &&& (step is Write <==> items.len() < cap)
                &&& (step is Full <==> items.len() == cap)
                &&& step matches PushStep::Write { index, next_head } ==> {
                    &&& index == head % cap
                    &&& next_head == head.wrapping_add(1)
                    &&& distance(next_head, tail) == items.len() + 1
                    &&& ring_items(slots.update(index as int, value), next_head, tail, cap) == items.push(value)
                }
                &&& (push_effect(slots, head, tail, tail, cap, value).3 <==> step is Write)
            }),
    {
        let cap = self.spec_capacity();
        lemma_power_of_two_bits(cap);
        if distance(head, tail) < cap {
            crate::ring_index::lemma_write_appends(slots, head, tail, cap, value);
            crate::ring_index::lemma_distance_step(head, tail);
        }
    }

    /// Sets up the header of a segment of `mem_len` bytes for a ring of
    /// `capacity` slots, and returns the producer of that ring.
    pub fn init(header: &mut SharedHeader, mem_len: usize, capacity: usize) -> (r: Result<Self, IpcError>)
        requires
            power_of_two(capacity as int) ==> HEADER_SIZE + capacity * core::mem::size_of::<T>() <= usize::MAX,
        ensures
            match r {
                Ok(p) => {
                    &&& power_of_two(capacity as int)
                    &&& mem_len >= HEADER_SIZE + capacity * core::mem::size_of::<T>()
                    &&& final(header).is_initialized(capacity, core::mem::size_of::<T>())
                    &&& p.spec_capacity() == capacity
                    &&& p.known_tail() == 0
                },
                Err(IpcError::InvalidCapacity) => {
                    &&& !power_of_two(capacity as int)
                    &&& *final(header) == *old(header)
                },
                Err(IpcError::ConfigMismatch { capacity: c, item_size }) => {
                    &&& power_of_two(capacity as int)
                    &&& mem_len < HEADER_SIZE + capacity * core::mem::size_of::<T>()
                    &&& c == capacity
                    &&& item_size == core::mem::size_of::<T>()
                    &&& *final(header) == *old(header)
                },
                Err(_) => false,
            },
    {
        if !is_power_of_two(capacity) {
            return Err(IpcError::InvalidCapacity);
        }
        let item_size = core::mem::size_of::<T>();
        let required_size = HEADER_SIZE + capacity * item_size;
        if mem_len < required_size {
            return Err(IpcError::ConfigMismatch { capacity, item_size });
        }
        header.head.0 = 0;
        header.tail.0 = 0;
        header.capacity = capacity;
        header.item_size = item_size;
        header.magic = SharedHeader::MAGIC_VALUE;
        proof {
            lemma_power_of_two_bits(capacity);
        }
        Ok(Producer { capacity, mask: capacity - 1, cached_tail: 0, _marker: PhantomData })
    }

    /// First decision of a push, from the write index `head`: write if the
    /// copy of the read index shows room, else read the shared read index.
    pub fn begin_push(&self, head: usize) -> (step: PushStep)
        ensures
            step == self.push_step(head, self.known_tail(), PushStep::RefreshTail),
            power_of_two(self.spec_capacity() as int),
            step matches PushStep::Write { index, .. } ==> index < self.spec_capacity(),
            step is RefreshTail <==> distance(head, self.known_tail()) >= self.spec_capacity(),
            !(step is Full),
            step matches PushStep::Write { index, next_head } ==> {
                &&& index == head % self.spec_capacity()
                &&& next_head == head.wrapping_add(1)
            },
    {
        proof {
            use_type_invariant(self);
        }
        if head.wrapping_sub(self.cached_tail) >= self.capacity {
            PushStep::RefreshTail
        } else {
            proof {
                lemma_mask_is_mod(head, self.capacity);
            }
            PushStep::Write { index: head & self.mask, next_head: head.wrapping_add(1) }
        }
    }

    /// Second decision of a push, once the shared read index `tail` has been
    /// read: keep it as the new copy, and write if there is room.
    pub fn push_with_tail(&mut self, head: usize, tail: usize) -> (step: PushStep)
        ensures
            final(self).spec_capacity() == old(self).spec_capacity(),
            final(self).known_tail() == tail,
            step == old(self).push_step(head, tail, PushStep::Full),
            power_of_two(old(self).spec_capacity() as int),
            step matches PushStep::Write { index, .. } ==> index < old(self).spec_capacity(),
            step is Write <==> distance(head, tail) < old(self).spec_capacity(),
            step is Full <==> distance(head, tail) >= old(self).spec_capacity(),
            step matches PushStep::Write { index, next_head } ==> {
                &&& index == head % old(self).spec_capacity()
                &&& next_head == head.wrapping_add(1)
            },
    {
        proof {
            use_type_invariant(&*self);
        }
        self.cached_tail = tail;
        if head.wrapping_sub(self.cached_tail) >= self.capacity {
            PushStep::Full
        } else {
            proof {
                lemma_mask_is_mod(head, self.capacity);
            }
            PushStep::Write { index: head & self.mask, next_head: head.wrapping_add(1) }
        }
    }

    /// Pushes `value` onto the ring in `region`, or fails fast with
    /// `BufferFull` when the ring holds `capacity` items.
    pub fn push(&mut self, region: &mut SharedRegion<T>, value: T) -> (r: Result<(), IpcError>)
        requires
            old(region).slots.len() >= old(self).spec_capacity(),
        ensures
            final(self).spec_capacity() == old(self).spec_capacity(),
            ({
                let (slots, head, known_tail, accepted) = push_effect(
                    old(region).slots@,
                    old(region).header.head.0,
                    old(region).header.tail.0,
                    old(self).known_tail(),
                    old(self).spec_capacity(),
                    value,
                );
                &&& final(region).slots@ == slots
                &&& header_with_head(old(region).header, final(region).header, head)
                &&& final(self).known_tail() == known_tail
                &&& if accepted { r is Ok } else { r matches Err(IpcError::BufferFull) }
            }),
            final(region).header.head.0 == old(region).header.head.0
                || final(region).header.head.0 == old(region).header.head.0.wrapping_add(1),
            final(self).known_tail() == if distance(old(region).header.head.0, old(self).known_tail())
                < old(self).spec_capacity() {
                old(self).known_tail()
            } else {
                old(region).header.tail.0
            },
            r is Ok <==> distance(old(region).header.head.0, final(self).known_tail()) < old(self).spec_capacity(),
            r is Ok ==> {
                &&& final(region).header.head.0 == old(region).header.head.0.wrapping_add(1)
                &&& final(region).slots@ == old(region).slots@.update(
                    (old(region).header.head.0 % old(self).spec_capacity()) as int,
                    value,
                )
            },
            r is Err ==> {
                &&& final(region).header == old(region).header
                &&& final(region).slots@ == old(region).slots@
            },
            ({
                &&& header_invariant(old(region).header, core::mem::size_of::<T>())
                &&& old(region).header.capacity == old(self).spec_capacity()
                &&& producer_sees(
                    old(self).known_tail(),
                    old(region).header.head.0,
                    old(region).header.tail.0,
                    old(self).spec_capacity(),
                )
            }) ==> header_invariant(final(region).header, core::mem::size_of::<T>()),
            producer_sees(
                old(self).known_tail(),
                old(region).header.head.0,
                old(region).header.tail.0,
                old(self).spec_capacity(),
            ) ==> {
                let cap = old(self).spec_capacity();
                let before = region_items(*old(region), cap);
                let after = region_items(*final(region), cap);
                &&& producer_sees(final(self).known_tail(), final(region).header.head.0, final(region).header.tail.0, cap)
                &&& distance(final(region).header.head.0, final(region).header.tail.0) <= cap
                &&& (r is Ok <==> before.len() < cap)
                &&& r is Ok ==> after == before.push(value)
                &&& r is Err ==> after == before
            },
    {
        proof {
            use_type_invariant(&*self);
        }
        let ghost cap = self.capacity;
        let ghost known = self.cached_tail;
        let head = region.header.head.0;
        let tail = region.header.tail.0;
        proof {
            if producer_sees(known, head, tail, cap) {
                lemma_push_effect(region.slots@, head, tail, known, cap, value);
            }
        }
        let mut step = self.begin_push(head);
        if let PushStep::RefreshTail = step {
            step = self.push_with_tail(head, tail);
        }
        match step {
            PushStep::Write { index, next_head } => {
                region.slots.set(index, value);
                region.header.head.0 = next_head;
                Ok(())
            },
            _ => Err(IpcError::BufferFull),
        }
    }
}

} // verus!

verus! {

impl<T: Copy> Consumer<T> {
    #[verifier::type_invariant]
    spec fn well_formed(self) -> bool {
        &&& power_of_two(self.capacity as int)
        &&& self.mask == self.capacity - 1
    }

    /// Number of slots of the ring.
    pub closed spec fn spec_capacity(self) -> usize {
        self.capacity
    }

    /// The consumer's copy of the write index.
    pub closed spec fn known_head(self) -> usize {
        self.cached_head
    }

    /// The step a pop takes given the read index `tail`, when the write index
    /// is known to be `head`.
    pub open spec fn pop_step(self, tail: usize, head: usize, stale: PopStep) -> PopStep {
        if head != tail {
            PopStep::Read { index: slot_of(tail, self.spec_capacity()) as usize, next_tail: tail.wrapping_add(1) }
        } else {
            stale
        }
    }

    /// What a pop decides once the write index `head` is known: it reads
    /// exactly when the ring is not empty, from the slot `tail % capacity`,
    /// which holds the oldest item, and then the read index moves one step,
    /// so that the ring holds one item less; otherwise the ring is empty. The
    /// same decision is the one `pop_effect` takes with the write index as the copy.
    pub proof fn lemma_pop_decision(self, tail: usize, head: usize, slots: Seq<T>)
        requires
            power_of_two(self.spec_capacity() as int),
            slots.len() >= self.spec_capacity(),
            distance(head, tail) <= self.spec_capacity(),
        ensures
            ({
                let cap = self.spec_capacity();
                let step = self.pop_step(tail, head, PopStep::Empty);
                let items = ring_items(slots, head, tail, cap);
                &&& (step is Empty <==> items.len() == 0)
                &&& (step is Read <==> items.len() > 0)
                &&& step matches PopStep::Read { index, next_tail } ==> {
                    &&& index == tail % cap
                    &&& slots[index as int] == items[0]
                    &&& next_tail == tail.wrapping_add(1)
                    &&& distance(head, next_tail) == items.len() - 1
                    &&& ring_items(slots, head, next_tail, cap) == items.drop_first()
                }
                &&& (pop_effect(slots, head, tail, head, cap).2 is None <==> step is Empty)
            }),
    {
        let cap = self.spec_capacity();
        lemma_power_of_two_bits(cap);
        if distance(head, tail) > 0 {
            crate::ring_index::lemma_advance_drops_front(slots, head, tail, cap);
            crate::ring_index::lemma_capacity_below_counter_max(cap);
            crate::ring_index::lemma_distance_step(head, tail);
        }
    }

    /// Attaches to the segment whose header is `header`: checks that it was
    /// set up, for a power-of-two capacity and for slots of the size of `T`.
    /// The copy of the write index starts at the read index: nothing is known
    /// to be readable yet.
    pub fn new(header: &SharedHeader) -> (r: Result<Self, IpcError>)
        ensures
            match r {
                Ok(c) => {
                    &&& header.magic == SharedHeader::MAGIC_VALUE
                    &&& power_of_two(header.capacity as int)
                    &&& header.item_size == core::mem::size_of::<T>()
                    &&& c.spec_capacity() == header.capacity
                    &&& c.known_head() == header.tail.0
                },
                Err(IpcError::InvalidMagic { expected, found }) => {
                    &&& header.magic != SharedHeader::MAGIC_VALUE
                    &&& expected == SharedHeader::MAGIC_VALUE
                    &&& found == header.magic
                },
                Err(IpcError::InvalidCapacity) => {
                    &&& header.magic == SharedHeader::MAGIC_VALUE
                    &&& !power_of_two(header.capacity as int)
                },
                Err(IpcError::ConfigMismatch { capacity, item_size }) => {
                    &&& header.magic == SharedHeader::MAGIC_VALUE
                    &&& power_of_two(header.capacity as int)
                    &&& header.item_size != core::mem::size_of::<T>()
                    &&& capacity == header.capacity
                    &&& item_size == header.item_size
                },
                Err(_) => false,
            },
    {
        if header.magic != SharedHeader::MAGIC_VALUE {
            return Err(IpcError::InvalidMagic { expected: SharedHeader::MAGIC_VALUE, found: header.magic });
        }
        if !is_power_of_two(header.capacity) {
            return Err(IpcError::InvalidCapacity);
        }
        let item_size = core::mem::size_of::<T>();
        if header.item_size != item_size {
            return Err(IpcError::ConfigMismatch { capacity: header.capacity, item_size: header.item_size });
        }
        let capacity = header.capacity;
        proof {
            lemma_power_of_two_bits(capacity);
        }
        Ok(Consumer { capacity, mask: capacity - 1, cached_head: header.tail.0, _marker: PhantomData })
    }

    /// First decision of a pop, from the read index `tail`: read if the copy
    /// of the write index shows an item, else read the shared write index.
    pub fn begin_pop(&self, tail: usize) -> (step: PopStep)
        ensures
            step == self.pop_step(tail, self.known_head(), PopStep::RefreshHead),
            power_of_two(self.spec_capacity() as int),
            step matches PopStep::Read { index, .. } ==> index < self.spec_capacity(),
            step is RefreshHead <==> self.known_head() == tail,
            !(step is Empty),
            step matches PopStep::Read { index, next_tail } ==> {
                &&& index == tail % self.spec_capacity()
                &&& next_tail == tail.wrapping_add(1)
            },
    {
        proof {
            use_type_invariant(self);
        }
        if self.cached_head == tail {
            PopStep::RefreshHead
        } else {
            proof {
                lemma_mask_is_mod(tail, self.capacity);
            }
            PopStep::Read { index: tail & self.mask, next_tail: tail.wrapping_add(1) }
        }
    }

    /// Second decision of a pop, once the shared write index `head` has been
    /// read: keep it as the new copy, and read if there is an item.
    pub fn pop_with_head(&mut self, tail: usize, head: usize) -> (step: PopStep)
        ensures
            final(self).spec_capacity() == old(self).spec_capacity(),
            final(self).known_head() == head,
            step == old(self).pop_step(tail, head, PopStep::Empty),
            power_of_two(old(self).spec_capacity() as int),
            step matches PopStep::Read { index, .. } ==> index < old(self).spec_capacity(),
            step is Empty <==> head == tail,
            step is Read <==> distance(head, tail) > 0,
            step matches PopStep::Read { index, next_tail } ==> {
                &&& index == tail % old(self).spec_capacity()
                &&& next_tail == tail.wrapping_add(1)
            },
    {
        proof {
            use_type_invariant(&*self);
        }
        self.cached_head = head;
        if self.cached_head == tail {
            PopStep::Empty
        } else {
            proof {
                lemma_mask_is_mod(tail, self.capacity);
            }
            PopStep::Read { index: tail & self.mask, next_tail: tail.wrapping_add(1) }
        }
    }

    /// Pops the oldest item of the ring in `region`, or `None` when it is empty.
    pub fn pop(&mut self, region: &mut SharedRegion<T>) -> (r: Option<T>)
        requires
            old(region).slots.len() >= old(self).spec_capacity(),
        ensures
            final(self).spec_capacity() == old(self).spec_capacity(),
            ({
                let (tail, known_head, result) = pop_effect(
                    old(region).slots@,
                    old(region).header.head.0,
                    old(region).header.tail.0,
                    old(self).known_head(),
                    old(self).spec_capacity(),
                );
                &&& r == result
                &&& final(region).slots@ == old(region).slots@
                &&& header_with_tail(old(region).header, final(region).header, tail)
                &&& final(self).known_head() == known_head
            }),
            final(region).header.tail.0 == old(region).header.tail.0
                || final(region).header.tail.0 == old(region).header.tail.0.wrapping_add(1),
            final(self).known_head() == if old(self).known_head() == old(region).header.tail.0 {
                old(region).header.head.0
            } else {
                old(self).known_head()
            },
            r is None <==> final(self).known_head() == old(region).header.tail.0,
            r is Some ==> {
                &&& r == Some(old(region).slots@[(old(region).header.tail.0 % old(self).spec_capacity()) as int])
                &&& final(region).header.tail.0 == old(region).header.tail.0.wrapping_add(1)
            },
            r is None ==> final(region).header == old(region).header,
            ({
                &&& header_invariant(old(region).header, core::mem::size_of::<T>())
                &&& old(region).header.capacity == old(self).spec_capacity()
                &&& consumer_sees(
                    old(self).known_head(),
                    old(region).header.head.0,
                    old(region).header.tail.0,
                    old(self).spec_capacity(),
                )
            }) ==> {
                &&& header_invariant(final(region).header, core::mem::size_of::<T>())
                &&& distance(final(region).header.head.0, final(region).header.tail.0)
                    <= distance(old(region).header.head.0, old(region).header.tail.0)
            },
            consumer_sees(
                old(self).known_head(),
                old(region).header.head.0,
                old(region).header.tail.0,
                old(self).spec_capacity(),
            ) ==> {
                let cap = old(self).spec_capacity();
                let before = region_items(*old(region), cap);
                let after = region_items(*final(region), cap);
                &&& consumer_sees(final(self).known_head(), final(region).header.head.0, final(region).header.tail.0, cap)
                &&& (r is None <==> before.len() == 0)
                &&& r is None ==> after == before
                &&& r is Some ==> r == Some(before[0]) && after == before.drop_first()
            },
    {
        proof {
            use_type_invariant(&*self);
        }
        let ghost cap = self.capacity;
        let ghost known = self.cached_head;
        let head = region.header.head.0;
        let tail = region.header.tail.0;
        proof {
            if consumer_sees(known, head, tail, cap) {
                lemma_pop_effect(region.slots@, head, tail, known, cap);
            }
        }
        let mut step = self.begin_pop(tail);
        if let PopStep::RefreshHead = step {
            step = self.pop_with_head(tail, head);
        }
        match step {
            PopStep::Read { index, next_tail } => {
                let value = region.slots[index];
                region.header.tail.0 = next_tail;
                Some(value)
            },
            _ => None,
        }
    }
}

} // verus!
