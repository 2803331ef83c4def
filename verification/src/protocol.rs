//! The SPSC protocol as state transitions: what a push and a pop do to the
//! slots, to the two shared indices and to each half's copy of the other's
//! index, and what that means for the ring's contents over a whole run.
use vstd::prelude::*;
use crate::layout::SharedHeader;
use crate::ring_index::{
    power_of_two, distance, slot_of, ring_items, lemma_write_appends, lemma_advance_drops_front,
    lemma_distance_split, lemma_distance_step, lemma_capacity_below_counter_max,
};

verus! {

/// The producer's copy `known_tail` of the read index is one the read index
/// has held: the read index has moved from it towards the write index, and the
/// producer has not written more than `capacity` items past it.
pub open spec fn producer_sees(known_tail: usize, head: usize, tail: usize, capacity: usize) -> bool {
    &&& distance(head, known_tail) <= capacity
    &&& distance(tail, known_tail) <= distance(head, known_tail)
}

/// The consumer's copy `known_head` of the write index is one the write index
/// has held: it lies between the read index and the write index, and the ring
/// holds at most `capacity` items.
pub open spec fn consumer_sees(known_head: usize, head: usize, tail: usize, capacity: usize) -> bool {
    &&& distance(head, tail) <= capacity
    &&& distance(known_head, tail) <= distance(head, tail)
}

/// The header of a segment set up for slots of `item_size` bytes, whose ring
/// holds at most `capacity` items.
pub open spec fn header_invariant(header: SharedHeader, item_size: usize) -> bool {
    &&& header.magic == SharedHeader::MAGIC_VALUE
    &&& power_of_two(header.capacity as int)
    &&& header.item_size == item_size
    &&& distance(header.head.0, header.tail.0) <= header.capacity
}

/// A push of `value`: the slots, write index and copy of the read index
/// afterwards, and whether the value was accepted. The shared read index is
/// consulted only when the copy shows no room.
pub open spec fn push_effect<T>(
    slots: Seq<T>,
    head: usize,
    tail: usize,
    known_tail: usize,
    capacity: usize,
    value: T,
) -> (Seq<T>, usize, usize, bool) {
    let tail_used = if distance(head, known_tail) < capacity { known_tail } else { tail };
    if distance(head, tail_used) < capacity {
        (slots.update(slot_of(head, capacity), value), head.wrapping_add(1), tail_used, true)
    } else {
        (slots, head, tail_used, false)
    }
}

/// A pop: the read index and copy of the write index afterwards, and the item
/// read, if any. The shared write index is consulted only when the copy shows
/// nothing to read.
pub open spec fn pop_effect<T>(
    slots: Seq<T>,
    head: usize,
    tail: usize,
    known_head: usize,
    capacity: usize,
) -> (usize, usize, Option<T>) {
    let head_used = if known_head == tail { head } else { known_head };
    if head_used == tail {
        (tail, head_used, None)
    } else {
        (tail.wrapping_add(1), head_used, Some(slots[slot_of(tail, capacity)]))
    }
}

/// The producer's copy of the read index decides whether the shared one is
/// consulted: while the copy shows room, a push does not depend on the shared
/// read index at all; once it shows none, a push acts as if the copy were the
/// shared read index, which it then keeps. Either way, a value is accepted
/// only into a ring with room as seen from the read index it relied on.
pub proof fn lemma_push_effect_cache<T>(
    slots: Seq<T>,
    head: usize,
    tail: usize,
    other_tail: usize,
    known_tail: usize,
    capacity: usize,
    value: T,
)
    ensures
        distance(head, known_tail) < capacity ==> {
            &&& push_effect(slots, head, tail, known_tail, capacity, value)
                == push_effect(slots, head, other_tail, known_tail, capacity, value)
            &&& push_effect(slots, head, tail, known_tail, capacity, value).2 == known_tail
        },
        distance(head, known_tail) >= capacity ==> {
            &&& push_effect(slots, head, tail, known_tail, capacity, value)
                == push_effect(slots, head, tail, tail, capacity, value)
            &&& push_effect(slots, head, tail, known_tail, capacity, value).2 == tail
        },
        push_effect(slots, head, tail, known_tail, capacity, value).3 ==> {
            let relied = push_effect(slots, head, tail, known_tail, capacity, value).2;
            &&& distance(head, relied) < capacity
            &&& push_effect(slots, head, tail, known_tail, capacity, value).1 == head.wrapping_add(1)
            &&& push_effect(slots, head, tail, known_tail, capacity, value).0
                == slots.update(slot_of(head, capacity), value)
        },
        !push_effect(slots, head, tail, known_tail, capacity, value).3 ==> {
            &&& distance(head, tail) >= capacity
            &&& push_effect(slots, head, tail, known_tail, capacity, value).1 == head
            &&& push_effect(slots, head, tail, known_tail, capacity, value).0 == slots
        },
{
}

/// The consumer's copy of the write index decides whether the shared one is
/// consulted: while the copy shows an item, a pop does not depend on the
/// shared write index; once it shows none, a pop acts as if the copy were the
/// shared write index, which it then keeps. A pop returns nothing only when
/// the shared write index equals the read index.
pub proof fn lemma_pop_effect_cache<T>(
    slots: Seq<T>,
    head: usize,
    other_head: usize,
    tail: usize,
    known_head: usize,
    capacity: usize,
)
    ensures
        known_head != tail ==> {
            &&& pop_effect(slots, head, tail, known_head, capacity)
                == pop_effect(slots, other_head, tail, known_head, capacity)
            &&& pop_effect(slots, head, tail, known_head, capacity).1 == known_head
        },
        known_head == tail ==> {
            &&& pop_effect(slots, head, tail, known_head, capacity) == pop_effect(slots, head, tail, head, capacity)
            &&& pop_effect(slots, head, tail, known_head, capacity).1 == head
        },
        pop_effect(slots, head, tail, known_head, capacity).2 is None ==> {
            &&& head == tail
            &&& pop_effect(slots, head, tail, known_head, capacity).0 == tail
        },
        pop_effect(slots, head, tail, known_head, capacity).2 is Some ==> {
            &&& pop_effect(slots, head, tail, known_head, capacity).2 == Some(slots[slot_of(tail, capacity)])
            &&& pop_effect(slots, head, tail, known_head, capacity).0 == tail.wrapping_add(1)
        },
{
}

/// Seen by a producer whose copy of the read index is valid, a push fails
/// exactly when the ring is full, appends the value when it succeeds, keeps
/// the copy valid, and never lets the ring hold more than `capacity` items.
pub proof fn lemma_push_effect<T>(slots: Seq<T>, head: usize, tail: usize, known_tail: usize, capacity: usize, value: T)
    requires
        power_of_two(capacity as int),
        slots.len() >= capacity,
        producer_sees(known_tail, head, tail, capacity),
    ensures
        ({
            let (new_slots, new_head, new_known_tail, accepted) = push_effect(slots, head, tail, known_tail, capacity, value);
            let before = ring_items(slots, head, tail, capacity);
            let after = ring_items(new_slots, new_head, tail, capacity);
            &&& producer_sees(new_known_tail, new_head, tail, capacity)
            &&& distance(new_head, tail) <= capacity
            &&& (accepted <==> before.len() < capacity)
            &&& accepted ==> new_head == head.wrapping_add(1) && after == before.push(value)
            &&& !accepted ==> new_head == head && new_slots == slots && after == before
        }),
{
    lemma_distance_split(known_tail, tail, head);
    let tail_used = if distance(head, known_tail) < capacity { known_tail } else { tail };
    if distance(head, tail_used) < capacity {
        lemma_write_appends(slots, head, tail, capacity, value);
        lemma_distance_step(head, tail_used);
        lemma_distance_step(head, tail);
    }
}

/// Seen by a consumer whose copy of the write index is valid, a pop returns
/// `None` exactly when the ring is empty, and otherwise its oldest item, which
/// it removes; the copy stays valid.
pub proof fn lemma_pop_effect<T>(slots: Seq<T>, head: usize, tail: usize, known_head: usize, capacity: usize)
    requires
        power_of_two(capacity as int),
        slots.len() >= capacity,
        consumer_sees(known_head, head, tail, capacity),
    ensures
        ({
            let (new_tail, new_known_head, result) = pop_effect(slots, head, tail, known_head, capacity);
            let before = ring_items(slots, head, tail, capacity);
            let after = ring_items(slots, head, new_tail, capacity);
            &&& consumer_sees(new_known_head, head, new_tail, capacity)
            &&& (result is None <==> before.len() == 0)
            &&& result is None ==> new_tail == tail
            &&& result is Some ==> {
                &&& result == Some(before[0])
                &&& new_tail == tail.wrapping_add(1)
                &&& after == before.drop_first()
            }
        }),
{
    let head_used = if known_head == tail { head } else { known_head };
    if head_used != tail {
        lemma_advance_drops_front(slots, head, tail, capacity);
        lemma_capacity_below_counter_max(capacity);
        lemma_distance_step(head_used, tail);
        lemma_distance_step(head, tail);
    }
}

/// Whatever the producer's copy of the read index, the ring it sees holds at
/// most `capacity` items.
pub proof fn lemma_producer_view_bounds_fill(known_tail: usize, head: usize, tail: usize, capacity: usize)
    requires
        producer_sees(known_tail, head, tail, capacity),
    ensures
        distance(head, tail) <= capacity,
{
    lemma_distance_split(known_tail, tail, head);
}

/// A pop by the consumer (the read index moves one step towards the write
/// index) leaves the producer's copy of the read index a valid one.
pub proof fn lemma_pop_keeps_producer_view(known_tail: usize, head: usize, tail: usize, capacity: usize)
    requires
        producer_sees(known_tail, head, tail, capacity),
        head != tail,
    ensures
        producer_sees(known_tail, head, tail.wrapping_add(1), capacity),
{
    lemma_distance_split(known_tail, tail, head);
    if distance(tail, known_tail) == distance(head, known_tail) {
        assert(distance(head, tail) == 0);
    }
    lemma_distance_step(tail, known_tail);
}

/// A push by the producer (the write index moves one step, into a ring that
/// had room) leaves the consumer's copy of the write index a valid one.
pub proof fn lemma_push_keeps_consumer_view(known_head: usize, head: usize, tail: usize, capacity: usize)
    requires
        consumer_sees(known_head, head, tail, capacity),
        distance(head, tail) < capacity,
    ensures
        consumer_sees(known_head, head.wrapping_add(1), tail, capacity),
{
    lemma_distance_step(head, tail);
}

/// A consumer that attaches with the read index as its copy of the write
/// index sees any ring that holds at most `capacity` items correctly.
pub proof fn lemma_attach_sees_ring(head: usize, tail: usize, capacity: usize)
    requires
        distance(head, tail) <= capacity,
    ensures
        consumer_sees(tail, head, tail, capacity),
{
}

/// A producer and a consumer that start from a header set up by
/// `Producer::init` (both indices and both copies at zero) see an empty ring.
pub proof fn lemma_initialized_ring_is_seen(capacity: usize)
    ensures
        producer_sees(0, 0, 0, capacity),
        consumer_sees(0, 0, 0, capacity),
        distance(0, 0) == 0,
{
}

/// Everything the two halves of a channel act on: the slots, the two shared
/// indices, and each half's copy of the other half's index.
pub struct ChannelState<T> {
    pub slots: Seq<T>,
    pub head: usize,
    pub tail: usize,
    pub known_tail: usize,
    pub known_head: usize,
    pub capacity: usize,
}

impl<T> ChannelState<T> {
    /// The items in the ring, oldest first.
    pub open spec fn items(self) -> Seq<T> {
        ring_items(self.slots, self.head, self.tail, self.capacity)
    }

    /// Both halves see the ring correctly, and it has `capacity` slots.
    pub open spec fn coherent(self) -> bool {
        &&& power_of_two(self.capacity as int)
        &&& self.slots.len() >= self.capacity
        &&& producer_sees(self.known_tail, self.head, self.tail, self.capacity)
        &&& consumer_sees(self.known_head, self.head, self.tail, self.capacity)
    }
}

/// One operation of a run: a push by the producer, or a pop by the consumer.
pub enum Op<T> {
    Push(T),
    Pop,
}

/// The state after `op`, the item a pop returned, and the value a push got in.
pub open spec fn step<T>(s: ChannelState<T>, op: Op<T>) -> (ChannelState<T>, Option<T>, Option<T>) {
    match op {
        Op::Push(value) => {
            let (slots, head, known_tail, accepted) = push_effect(s.slots, s.head, s.tail, s.known_tail, s.capacity, value);
            (
                ChannelState { slots, head, tail: s.tail, known_tail, known_head: s.known_head, capacity: s.capacity },
                None,
                if accepted { Some(value) } else { None },
            )
        },
        Op::Pop => {
            let (tail, known_head, result) = pop_effect(s.slots, s.head, s.tail, s.known_head, s.capacity);
            (
                ChannelState { slots: s.slots, head: s.head, tail, known_tail: s.known_tail, known_head, capacity: s.capacity },
                result,
                None,
            )
        },
    }
}

/// `Some(x)` as a one-item sequence, `None` as the empty one.
pub open spec fn option_seq<T>(o: Option<T>) -> Seq<T> {
    match o {
        Some(x) => seq![x],
        None => Seq::empty(),
    }
}

/// The state after the operations `ops`, in order.
pub open spec fn run<T>(s: ChannelState<T>, ops: Seq<Op<T>>) -> ChannelState<T>
    decreases ops.len(),
{
    if ops.len() == 0 {
        s
    } else {
        run(step(s, ops[0]).0, ops.drop_first())
    }
}

/// The values whose push succeeded during `ops`, in order.
pub open spec fn accepted<T>(s: ChannelState<T>, ops: Seq<Op<T>>) -> Seq<T>
    decreases ops.len(),
{
    if ops.len() == 0 {
        Seq::empty()
    } else {
        let (next, _, got_in) = step(s, ops[0]);
        option_seq(got_in) + accepted(next, ops.drop_first())
    }
}

/// The items the pops of `ops` returned, in order.
pub open spec fn delivered<T>(s: ChannelState<T>, ops: Seq<Op<T>>) -> Seq<T>
    decreases ops.len(),
{
    if ops.len() == 0 {
        Seq::empty()
    } else {
        let (next, popped, _) = step(s, ops[0]);
        option_seq(popped) + delivered(next, ops.drop_first())
    }
}

/// In-order delivery over a whole run of pushes and pops: starting from a
/// ring that both halves see correctly, the items that were in it followed by
/// the values pushed successfully are exactly the items popped followed by
/// the items left in it; nothing is lost, duplicated or reordered, and both
/// halves still see the ring correctly at the end.
pub proof fn lemma_run_in_order<T>(s: ChannelState<T>, ops: Seq<Op<T>>)
    requires
        s.coherent(),
    ensures
        run(s, ops).coherent(),
        s.items() + accepted(s, ops) == delivered(s, ops) + run(s, ops).items(),
    decreases ops.len(),
{
    if ops.len() == 0 {
        assert(s.items() + Seq::<T>::empty() =~= Seq::<T>::empty() + s.items());
    } else {
        let (next, popped, got_in) = step(s, ops[0]);
        let rest = ops.drop_first();
        match ops[0] {
            Op::Push(value) => {
                lemma_push_effect(s.slots, s.head, s.tail, s.known_tail, s.capacity, value);
                if got_in is Some {
                    lemma_push_keeps_consumer_view(s.known_head, s.head, s.tail, s.capacity);
                }
            },
            Op::Pop => {
                lemma_pop_effect(s.slots, s.head, s.tail, s.known_head, s.capacity);
                if popped is Some {
                    lemma_pop_keeps_producer_view(s.known_tail, s.head, s.tail, s.capacity);
                }
            },
        }
        assert(next.coherent());
        lemma_run_in_order(next, rest);
        let fin = run(next, rest);
        assert(run(s, ops) == fin);
        assert(accepted(s, ops) == option_seq(got_in) + accepted(next, rest));
        assert(delivered(s, ops) == option_seq(popped) + delivered(next, rest));
        match ops[0] {
            Op::Push(value) => {
                assert(popped is None);
                if got_in is Some {
                    assert(next.items() == s.items().push(value));
                    assert(s.items() + accepted(s, ops) =~= next.items() + accepted(next, rest));
                } else {
                    assert(next.items() == s.items());
                    assert(s.items() + accepted(s, ops) =~= next.items() + accepted(next, rest));
                }
                assert(delivered(s, ops) =~= delivered(next, rest));
            },
            Op::Pop => {
                assert(got_in is None);
                assert(accepted(s, ops) =~= accepted(next, rest));
                if popped is Some {
                    let x = s.items()[0];
                    assert(next.items() == s.items().drop_first());
                    assert(s.items() =~= seq![x] + next.items());
                    assert(s.items() + accepted(s, ops) =~= seq![x] + (next.items() + accepted(next, rest)));
                    assert(delivered(s, ops) + fin.items() =~= seq![x] + (delivered(next, rest) + fin.items()));
                } else {
                    assert(next.items() == s.items());
                    assert(delivered(s, ops) =~= delivered(next, rest));
                }
            },
        }
    }
}

/// A consumer attached to a segment (its copy of the write index starting at
/// the read index) while the producer sees the ring correctly: from then on,
/// over any run of pushes and pops, the items already in the ring followed by
/// the values pushed successfully are exactly the items popped followed by the
/// items left.
pub proof fn lemma_attach_then_run_in_order<T>(
    slots: Seq<T>,
    head: usize,
    tail: usize,
    known_tail: usize,
    capacity: usize,
    ops: Seq<Op<T>>,
)
    requires
        power_of_two(capacity as int),
        slots.len() >= capacity,
        producer_sees(known_tail, head, tail, capacity),
    ensures
        ({
            let s = ChannelState { slots, head, tail, known_tail, known_head: tail, capacity };
            &&& s.coherent()
            &&& s.items() + accepted(s, ops) == delivered(s, ops) + run(s, ops).items()
        }),
{
    lemma_producer_view_bounds_fill(known_tail, head, tail, capacity);
    lemma_attach_sees_ring(head, tail, capacity);
    let s = ChannelState { slots, head, tail, known_tail, known_head: tail, capacity };
    lemma_run_in_order(s, ops);
}

/// Starting from an empty ring, the items popped over any run are the values
/// pushed successfully, in push order: a prefix of them, the rest still in the ring.
pub proof fn lemma_empty_ring_delivers_in_push_order<T>(s: ChannelState<T>, ops: Seq<Op<T>>)
    requires
        s.coherent(),
        s.items().len() == 0,
    ensures
        delivered(s, ops).len() <= accepted(s, ops).len(),
        delivered(s, ops) == accepted(s, ops).subrange(0, delivered(s, ops).len() as int),
        run(s, ops).items() == accepted(s, ops).subrange(delivered(s, ops).len() as int, accepted(s, ops).len() as int),
{
    lemma_run_in_order(s, ops);
    let a = accepted(s, ops);
    let d = delivered(s, ops);
    let rest = run(s, ops).items();
    assert(s.items() + a =~= a);
    assert(a == d + rest);
    assert(d =~= a.subrange(0, d.len() as int));
    assert(rest =~= a.subrange(d.len() as int, a.len() as int));
}

} // verus!
