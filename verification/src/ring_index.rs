//! Arithmetic of the ring's wrapping index counters.
//!
//! The producer's write index and the consumer's read index are free-running
//! `usize` counters that wrap at `usize::MAX`. A counter `p` addresses the slot
//! `p & (capacity - 1)`, which for a power-of-two capacity is `p % capacity`.
use vstd::prelude::*;
use vstd::arithmetic::power2::{pow2, lemma_pow2_unfold, lemma_pow2_pos, lemma_pow2_adds, lemma_pow2_strictly_increases};
use vstd::arithmetic::div_mod::{lemma_mod_multiples_basic, lemma_mod_equivalence, lemma_small_mod, lemma_mod_add_multiples_vanish};
use vstd::layout::unsigned_int_max_values;

verus! {

/// `n` is a power of two, `2^k` for some natural `k`.
pub open spec fn power_of_two(n: int) -> bool {
    exists|k: nat| pow2(k) == n
}

/// How many steps the wrapping counter takes to go from `from` forward to `to`.
pub open spec fn distance(to: usize, from: usize) -> nat {
    to.wrapping_sub(from) as nat
}

/// The slot that the counter `pos` addresses in a ring of `capacity` slots.
pub open spec fn slot_of(pos: usize, capacity: usize) -> int {
    pos as int % capacity as int
}

proof fn lemma_power_of_two_halves(n: int)
    requires
        n > 1,
    ensures
        power_of_two(n) == (n % 2 == 0 && power_of_two(n / 2)),
{
    if power_of_two(n) {
        let k = choose|k: nat| pow2(k) == n;
        if k == 0 {
            assert(pow2(0) == 1) by {
                lemma_pow2_unfold(1);
                vstd::arithmetic::power2::lemma2_to64();
            }
        }
        lemma_pow2_unfold(k);
        assert(pow2((k - 1) as nat) == n / 2);
    }
    if n % 2 == 0 && power_of_two(n / 2) {
        let k = choose|k: nat| pow2(k) == n / 2;
        lemma_pow2_unfold(k + 1);
        assert(pow2(k + 1) == n);
    }
}

/// The test `n > 0 && n & (n - 1) == 0` holds exactly of the powers of two.
pub proof fn lemma_power_of_two_bits(n: usize)
    ensures
        (n > 0 && n & ((n - 1) as usize) == 0) == power_of_two(n as int),
    decreases n,
{
    if n == 0 {
        if power_of_two(0) {
            let k = choose|k: nat| pow2(k) == 0;
            lemma_pow2_pos(k);
        }
    } else if n == 1 {
        assert(1usize & 0usize == 0) by (bit_vector);
        vstd::arithmetic::power2::lemma2_to64();
        assert(pow2(0) == 1);
    } else {
        let h: usize = n / 2;
        assert(n > 1 ==> ((n & ((n - 1) as usize) == 0) == (n % 2 == 0 && h > 0 && h & ((h - 1) as usize) == 0)))
            by (bit_vector)
            requires
                h == n / 2;
        lemma_power_of_two_bits(h);
        lemma_power_of_two_halves(n as int);
    }
}

/// For a power-of-two capacity, masking with `capacity - 1` is the remainder.
pub proof fn lemma_mask_is_mod(pos: usize, capacity: usize)
    requires
        power_of_two(capacity as int),
    ensures
        pos & ((capacity - 1) as usize) == pos % capacity,
    decreases capacity,
{
    lemma_power_of_two_bits(capacity);
    if capacity == 1 {
        assert(pos & 0usize == 0) by (bit_vector);
    } else {
        let half: usize = capacity / 2;
        let p2: usize = pos / 2;
        lemma_power_of_two_halves(capacity as int);
        assert(pos & ((capacity - 1) as usize) == 2 * (p2 & ((half - 1) as usize)) + pos % 2)
            by (bit_vector)
            requires
                capacity > 1,
                capacity % 2 == 0,
                half == capacity / 2,
                p2 == pos / 2;
        lemma_mask_is_mod(p2, half);
        vstd::arithmetic::div_mod::lemma_mod_breakdown(pos as int, 2, half as int);
        assert(2 * half == capacity);
    }
}

/// A power-of-two capacity divides the number of values of the counter, so a
/// counter wrapping around keeps addressing slots in order.
pub proof fn lemma_capacity_divides_counter_range(capacity: usize)
    requires
        power_of_two(capacity as int),
    ensures
        (usize::MAX as int + 1) % (capacity as int) == 0,
{
    let k = choose|k: nat| pow2(k) == capacity as int;
    let bits = usize::BITS as nat;
    unsigned_int_max_values();
    if k >= bits {
        if k > bits {
            lemma_pow2_strictly_increases(bits, k);
        }
        assert(false);
    }
    let rest = (bits - k) as nat;
    lemma_pow2_adds(k, rest);
    assert(k + rest == bits);
    vstd::arithmetic::mul::lemma_mul_is_commutative(pow2(k) as int, pow2(rest) as int);
    assert(pow2(bits) == pow2(rest) * capacity);
    lemma_pow2_pos(k);
    lemma_mod_multiples_basic(pow2((bits - k) as nat) as int, capacity as int);
}

/// A power-of-two capacity is below the largest counter value.
pub proof fn lemma_capacity_below_counter_max(capacity: usize)
    requires
        power_of_two(capacity as int),
    ensures
        capacity < usize::MAX,
{
    lemma_capacity_divides_counter_range(capacity);
    if capacity == usize::MAX {
        lemma_mod_add_multiples_vanish(1, capacity as int);
        lemma_small_mod(1, capacity as nat);
    }
}

/// The counter `pos` advanced by `steps` addresses the slot `(pos + steps) % capacity`.
pub proof fn lemma_slot_of_advance(pos: usize, steps: usize, capacity: usize)
    requires
        power_of_two(capacity as int),
    ensures
        slot_of(pos.wrapping_add(steps), capacity) == (pos as int + steps as int) % (capacity as int),
{
    lemma_capacity_divides_counter_range(capacity);
    lemma_power_of_two_bits(capacity);
    let r = usize::MAX as int + 1;
    if pos as int + steps as int > usize::MAX as int {
        let x = pos as int + steps as int - r;
        assert(pos.wrapping_add(steps) as int == x);
        lemma_mod_equivalence(x + r, x, capacity as int);
        assert((x + r) - x == r);
    }
}

/// Going from `from` to `to` by way of `mid`, where `mid` comes no later than `to`.
pub proof fn lemma_distance_split(from: usize, mid: usize, to: usize)
    requires
        distance(mid, from) <= distance(to, from),
    ensures
        distance(to, mid) == distance(to, from) - distance(mid, from),
{
}

/// One step forward from `pos` is one more step from any earlier counter.
pub proof fn lemma_distance_step(pos: usize, from: usize)
    requires
        distance(pos, from) < usize::MAX,
    ensures
        distance(pos.wrapping_add(1), from) == distance(pos, from) + 1,
        distance(pos, from.wrapping_add(1)) == if pos == from { usize::MAX as int } else { distance(pos, from) - 1 },
{
}

/// The items that sit in the ring: those written at counters `tail .. head`,
/// oldest first, each read from the slot its counter addresses.
pub open spec fn ring_items<T>(slots: Seq<T>, head: usize, tail: usize, capacity: usize) -> Seq<T> {
    Seq::new(distance(head, tail), |k: int| slots[(tail as int + k) % (capacity as int)])
}

/// Writing a value at the slot of the write index and advancing the write
/// index appends that value to the ring, and leaves every item that was there.
pub proof fn lemma_write_appends<T>(slots: Seq<T>, head: usize, tail: usize, capacity: usize, value: T)
    requires
        power_of_two(capacity as int),
        slots.len() >= capacity,
        distance(head, tail) < capacity,
    ensures
        0 <= slot_of(head, capacity) < capacity,
        ring_items(slots.update(slot_of(head, capacity), value), head.wrapping_add(1), tail, capacity)
            == ring_items(slots, head, tail, capacity).push(value),
{
    lemma_power_of_two_bits(capacity);
    let d = distance(head, tail);
    let c = capacity as int;
    assert(tail.wrapping_add(d as usize) == head);
    lemma_slot_of_advance(tail, d as usize, capacity);
    assert(slot_of(head, capacity) == (tail as int + d) % c);
    assert(distance(head.wrapping_add(1), tail) == d + 1);
    let old_items = ring_items(slots, head, tail, capacity);
    let new_slots = slots.update(slot_of(head, capacity), value);
    let new_items = ring_items(new_slots, head.wrapping_add(1), tail, capacity);
    assert forall|k: int| 0 <= k < d implies new_items[k] == old_items[k] by {
        lemma_mod_equivalence(tail as int + d, tail as int + k, c);
        lemma_small_mod((d - k) as nat, c as nat);
        assert((tail as int + d) - (tail as int + k) == d - k);
    }
    assert(new_items =~= old_items.push(value));
}

/// The oldest item of a non-empty ring sits in the slot of the read index, and
/// advancing the read index removes exactly that item.
pub proof fn lemma_advance_drops_front<T>(slots: Seq<T>, head: usize, tail: usize, capacity: usize)
    requires
        power_of_two(capacity as int),
        slots.len() >= capacity,
        0 < distance(head, tail) <= capacity,
    ensures
        0 <= slot_of(tail, capacity) < capacity,
        ring_items(slots, head, tail, capacity)[0] == slots[slot_of(tail, capacity)],
        ring_items(slots, head, tail.wrapping_add(1), capacity)
            == ring_items(slots, head, tail, capacity).drop_first(),
{
    lemma_power_of_two_bits(capacity);
    let c = capacity as int;
    let old_items = ring_items(slots, head, tail, capacity);
    let new_items = ring_items(slots, head, tail.wrapping_add(1), capacity);
    assert(distance(head, tail.wrapping_add(1)) == distance(head, tail) - 1);
    assert forall|k: int| 0 <= k < new_items.len() implies new_items[k] == old_items[k + 1] by {
        lemma_slot_of_advance(tail, 1, capacity);
        let t1 = tail.wrapping_add(1) as int;
        assert(t1 % c == (tail as int + 1) % c);
        vstd::arithmetic::div_mod::lemma_add_mod_noop(t1, k, c);
        vstd::arithmetic::div_mod::lemma_add_mod_noop(tail as int + 1, k, c);
        assert((tail as int + 1) + k == tail as int + (k + 1));
    }
    assert(new_items =~= old_items.drop_first());
}

/// What a read gives back of a write: on an empty ring, writing `value` at the
/// write index and advancing it, then reading the slot of the read index and
/// advancing that, yields `value` and leaves the ring empty again.
pub proof fn lemma_round_trip<T>(slots: Seq<T>, head: usize, tail: usize, capacity: usize, value: T)
    requires
        power_of_two(capacity as int),
        slots.len() >= capacity,
        distance(head, tail) == 0,
    ensures
        ({
            let written = slots.update(slot_of(head, capacity), value);
            &&& written[slot_of(tail, capacity)] == value
            &&& ring_items(written, head.wrapping_add(1), tail.wrapping_add(1), capacity).len() == 0
        }),
{
    lemma_power_of_two_bits(capacity);
    lemma_write_appends(slots, head, tail, capacity, value);
    let written = slots.update(slot_of(head, capacity), value);
    lemma_advance_drops_front(written, head.wrapping_add(1), tail, capacity);
}

} // verus!
