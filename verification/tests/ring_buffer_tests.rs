use xfeatures_ipc::IpcBuilder;

#[derive(Copy, Clone, Debug, PartialEq)]
struct DataItem {
    value: u32,
}

#[test]
fn test_ring_buffer_basic() {
    let (mut region, mut prod, mut cons) = IpcBuilder::<DataItem>::new("test_basic")
        .capacity(4)
        .build_in_memory(DataItem { value: 0 })
        .unwrap();

    let data_in = DataItem { value: 42 };
    assert!(prod.push(&mut region, data_in).is_ok());

    let data_out = cons.pop(&mut region).expect("Expected data to be present");
    assert_eq!(data_out.value, 42);
}

#[test]
fn test_ring_buffer_overflow() {
    let (mut region, mut prod, _cons) = IpcBuilder::<DataItem>::new("test_overflow")
        .capacity(2) // Must be power of 2
        .build_in_memory(DataItem { value: 0 })
        .unwrap();

    let data_in = DataItem { value: 99 };

    assert!(prod.push(&mut region, data_in).is_ok());
    assert!(prod.push(&mut region, data_in).is_ok());

    // Third push should fail (capacity is 2)
    assert!(prod.push(&mut region, data_in).is_err());
}
