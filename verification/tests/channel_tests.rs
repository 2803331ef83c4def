use xfeatures_ipc::layout::{SharedHeader, HEADER_SIZE};
use xfeatures_ipc::ring_buffer::{is_power_of_two, PopStep, PushStep};
use xfeatures_ipc::{Consumer, IpcBuilder, IpcError, Producer, SharedRegion};

#[derive(Copy, Clone, Debug, PartialEq)]
struct Message {
    id: u64,
    payload: [u8; 64],
}

fn blank_message() -> Message {
    Message { id: 0, payload: [0u8; 64] }
}

#[test]
fn powers_of_two_are_recognized() {
    assert!(!is_power_of_two(0));
    assert!(is_power_of_two(1));
    assert!(is_power_of_two(2));
    assert!(!is_power_of_two(3));
    assert!(is_power_of_two(4));
    assert!(!is_power_of_two(6));
    assert!(is_power_of_two(1024));
    assert!(is_power_of_two(1usize << (usize::BITS - 1)));
    assert!(!is_power_of_two(usize::MAX));
}

#[test]
fn builder_defaults_and_paths() {
    let b = IpcBuilder::<u32>::new("sensor_stream");
    assert_eq!(b.segment_size(), Some(HEADER_SIZE + 256 * 4));
    assert_eq!(b.resolve_path(), "/dev/shm/xfeatures_ipc_sensor_stream");
    assert_eq!(b.temp_file_name(), "xfeatures_ipc_sensor_stream.shm");
    let b = b.capacity(1024);
    assert_eq!(b.segment_size(), Some(192 + 1024 * 4));
    let huge = IpcBuilder::<u64>::new("huge").capacity(usize::MAX / 4);
    assert_eq!(huge.segment_size(), None);
    assert_eq!(b.resolve_path(), "/dev/shm/xfeatures_ipc_sensor_stream");
}

#[test]
fn build_rejects_capacity_that_is_not_a_power_of_two() {
    let r = IpcBuilder::<u32>::new("odd").capacity(3).build_in_memory(0);
    assert!(matches!(r, Err(IpcError::InvalidCapacity)));
    let r = IpcBuilder::<u32>::new("zero").capacity(0).build_in_memory(0);
    assert!(matches!(r, Err(IpcError::InvalidCapacity)));
}

#[test]
fn init_writes_the_header() {
    let mut region = SharedRegion::<u32>::create(8, 0);
    assert_eq!(region.len(), HEADER_SIZE + 8 * 4);
    region.header.head.0 = 17;
    region.header.tail.0 = 5;
    let n = region.len();
    let prod = Producer::<u32>::init(&mut region.header, n, 8);
    assert!(prod.is_ok());
    assert_eq!(region.header.head.0, 0);
    assert_eq!(region.header.tail.0, 0);
    assert_eq!(region.header.capacity, 8);
    assert_eq!(region.header.item_size, 4);
    assert_eq!(region.header.magic, SharedHeader::MAGIC_VALUE);
    assert_eq!(SharedHeader::MAGIC_VALUE, 0x58495043);
}

#[test]
fn init_rejects_bad_capacity_and_small_segment() {
    let mut region = SharedRegion::<u32>::create(8, 0);
    let before = region.header;
    let n = region.len();
    let r = Producer::<u32>::init(&mut region.header, n, 6);
    assert!(matches!(r, Err(IpcError::InvalidCapacity)));
    assert_eq!(region.header, before);

    let n = region.len();
    let r = Producer::<u32>::init(&mut region.header, n, 16);
    match r {
        Err(IpcError::ConfigMismatch { capacity, item_size }) => {
            assert_eq!(capacity, 16);
            assert_eq!(item_size, 4);
        }
        _ => panic!("expected ConfigMismatch"),
    }
    assert_eq!(region.header, before);
}

#[test]
fn attach_checks_magic_capacity_and_item_size() {
    let mut header = SharedHeader::zeroed();
    match Consumer::<u32>::new(&header) {
        Err(IpcError::InvalidMagic { expected, found }) => {
            assert_eq!(expected, 0x58495043);
            assert_eq!(found, 0);
        }
        _ => panic!("expected InvalidMagic"),
    }
    header.magic = SharedHeader::MAGIC_VALUE;
    header.capacity = 12;
    header.item_size = 4;
    assert!(matches!(Consumer::<u32>::new(&header), Err(IpcError::InvalidCapacity)));
    header.capacity = 16;
    header.item_size = 8;
    match Consumer::<u32>::new(&header) {
        Err(IpcError::ConfigMismatch { capacity, item_size }) => {
            assert_eq!(capacity, 16);
            assert_eq!(item_size, 8);
        }
        _ => panic!("expected ConfigMismatch"),
    }
    header.item_size = 4;
    assert!(Consumer::<u32>::new(&header).is_ok());

}

#[test]
fn pop_on_empty_ring_is_none() {
    let (mut region, _prod, mut cons) =
        IpcBuilder::<u32>::new("empty").capacity(4).build_in_memory(0).unwrap();
    assert_eq!(cons.pop(&mut region), None);
    assert_eq!(region.header.tail.0, 0);
}

#[test]
fn full_ring_fails_fast_and_recovers_after_pop() {
    let (mut region, mut prod, mut cons) =
        IpcBuilder::<u32>::new("full").capacity(2).build_in_memory(0).unwrap();
    assert!(prod.push(&mut region, 1).is_ok());
    assert!(prod.push(&mut region, 2).is_ok());
    assert!(matches!(prod.push(&mut region, 3), Err(IpcError::BufferFull)));
    assert_eq!(region.header.head.0, 2);
    assert_eq!(cons.pop(&mut region), Some(1));
    assert!(prod.push(&mut region, 3).is_ok());
    assert_eq!(cons.pop(&mut region), Some(2));
    assert_eq!(cons.pop(&mut region), Some(3));
    assert_eq!(cons.pop(&mut region), None);
}

#[test]
fn thousand_messages_arrive_in_order() {
    let (mut region, mut prod, mut cons) = IpcBuilder::<Message>::new("integration_test")
        .capacity(256)
        .build_in_memory(blank_message())
        .unwrap();
    let mut next_expected: u64 = 0;
    for i in 0..1000u64 {
        let mut msg = Message { id: i, payload: [0u8; 64] };
        msg.payload[0] = (i % 256) as u8;
        msg.payload[63] = 42;
        while prod.push(&mut region, msg).is_err() {
            let m = cons.pop(&mut region).unwrap();
            assert_eq!(m.id, next_expected);
            next_expected += 1;
        }
    }
    while let Some(m) = cons.pop(&mut region) {
        assert_eq!(m.id, next_expected);
        assert_eq!(m.payload[0], (next_expected % 256) as u8);
        assert_eq!(m.payload[63], 42);
        next_expected += 1;
    }
    assert_eq!(next_expected, 1000);
}

#[test]
fn indices_wrap_around_the_counter_range() {
    let (mut region, mut prod, mut cons) =
        IpcBuilder::<u32>::new("wrap").capacity(4).build_in_memory(0).unwrap();
    // Move both indices just below the end of the counter range; the
    // producer then refreshes its copy of the read index on the first push.
    region.header.head.0 = usize::MAX - 1;
    region.header.tail.0 = usize::MAX - 1;
    for v in 10..14u32 {
        assert!(prod.push(&mut region, v).is_ok());
    }
    assert_eq!(region.header.head.0, 2);
    assert!(prod.push(&mut region, 99).is_err());
    for v in 10..14u32 {
        assert_eq!(cons.pop(&mut region), Some(v));
    }
    assert_eq!(region.header.tail.0, 2);
    assert_eq!(cons.pop(&mut region), None);
    // Slots are addressed by the counter modulo the capacity.
    assert_eq!(region.slots, vec![12, 13, 10, 11]);
}

#[test]
fn producer_steps_follow_the_cached_tail() {
    let mut region = SharedRegion::<u32>::create(4, 0);
    let n = region.len();
    let mut prod = Producer::<u32>::init(&mut region.header, n, 4).unwrap();
    assert_eq!(prod.begin_push(0), PushStep::Write { index: 0, next_head: 1 });
    assert_eq!(prod.begin_push(3), PushStep::Write { index: 3, next_head: 4 });
    assert_eq!(prod.begin_push(4), PushStep::RefreshTail);
    assert_eq!(prod.push_with_tail(4, 0), PushStep::Full);
    assert_eq!(prod.push_with_tail(4, 1), PushStep::Write { index: 0, next_head: 5 });
    // The refreshed copy is kept: head 4 is within capacity of tail 1.
    assert_eq!(prod.begin_push(4), PushStep::Write { index: 0, next_head: 5 });
    assert_eq!(prod.begin_push(5), PushStep::RefreshTail);
    assert_eq!(prod.begin_push(usize::MAX), PushStep::RefreshTail);
}

#[test]
fn consumer_steps_follow_the_cached_head() {
    let mut region = SharedRegion::<u32>::create(4, 0);
    let n = region.len();
    let _prod = Producer::<u32>::init(&mut region.header, n, 4).unwrap();
    let mut cons = Consumer::<u32>::new(&region.header).unwrap();
    assert_eq!(cons.begin_pop(0), PopStep::RefreshHead);
    assert_eq!(cons.pop_with_head(0, 0), PopStep::Empty);
    assert_eq!(cons.pop_with_head(0, 3), PopStep::Read { index: 0, next_tail: 1 });
    assert_eq!(cons.begin_pop(1), PopStep::Read { index: 1, next_tail: 2 });
    assert_eq!(cons.begin_pop(3), PopStep::RefreshHead);
    assert_eq!(cons.pop_with_head(usize::MAX, 1), PopStep::Read { index: 3, next_tail: 0 });
}

#[test]
fn producer_and_consumer_caches_stay_valid_across_each_other() {
    let (mut region, mut prod, mut cons) =
        IpcBuilder::<u32>::new("caches").capacity(4).build_in_memory(0).unwrap();
    // Consumer caches the write index while the ring holds one item.
    assert!(prod.push(&mut region, 1).is_ok());
    assert_eq!(cons.pop(&mut region), Some(1));
    // Further pushes are seen once the consumer's copy runs out.
    assert!(prod.push(&mut region, 2).is_ok());
    assert!(prod.push(&mut region, 3).is_ok());
    assert_eq!(cons.pop(&mut region), Some(2));
    // The producer's copy of the read index is still 0; it refreshes when needed.
    assert!(prod.push(&mut region, 4).is_ok());
    assert!(prod.push(&mut region, 5).is_ok());
    assert!(prod.push(&mut region, 6).is_ok());
    assert!(prod.push(&mut region, 7).is_err());
    assert_eq!(cons.pop(&mut region), Some(3));
    assert_eq!(cons.pop(&mut region), Some(4));
    assert_eq!(cons.pop(&mut region), Some(5));
    assert_eq!(cons.pop(&mut region), Some(6));
    assert_eq!(cons.pop(&mut region), None);
}

#[test]
fn consumer_reattached_after_a_pop_sees_an_empty_ring() {
    let (mut region, mut prod, mut first) =
        IpcBuilder::<u32>::new("re").capacity(4).build_in_memory(0).unwrap();
    assert!(prod.push(&mut region, 7).is_ok());
    assert_eq!(first.pop(&mut region), Some(7));
    let mut second = Consumer::<u32>::new(&region.header).unwrap();
    assert_eq!(second.pop(&mut region), None);
    assert_eq!(region.header.head.0, 1);
    assert_eq!(region.header.tail.0, 1);
    assert!(prod.push(&mut region, 8).is_ok());
    assert_eq!(second.pop(&mut region), Some(8));
    assert_eq!(second.pop(&mut region), None);
    assert_eq!(region.header.tail.0, 2);
}

#[test]
fn consumer_attached_mid_stream_reads_from_the_read_index() {
    let (mut region, mut prod, mut first) =
        IpcBuilder::<u32>::new("mid").capacity(4).build_in_memory(0).unwrap();
    for v in 1..=4u32 {
        assert!(prod.push(&mut region, v).is_ok());
    }
    assert_eq!(first.pop(&mut region), Some(1));
    let mut second = Consumer::<u32>::new(&region.header).unwrap();
    assert_eq!(second.pop(&mut region), Some(2));
    assert_eq!(second.pop(&mut region), Some(3));
    assert_eq!(second.pop(&mut region), Some(4));
    assert_eq!(second.pop(&mut region), None);
}
