use rhubarb::driver_input::{DriverInput, DRIVER_INPUT_EVENT_CAPACITY};
use rhubarb::process::{translate_result, SizedQueue, SizedString, TranslateAddressError};

#[test]
fn sized_queue_is_first_in_first_out() {
    let mut q: SizedQueue<u32, 4> = SizedQueue::new();
    assert_eq!(q.pop(), None);
    q.push(1);
    q.push(2);
    q.push(3);
    assert_eq!(q.pop(), Some(1));
    q.push(4);
    q.push(5);
    assert_eq!(q.pop(), Some(2));
    assert_eq!(q.pop(), Some(3));
    assert_eq!(q.pop(), Some(4));
    assert_eq!(q.pop(), Some(5));
    assert_eq!(q.pop(), None);
}

#[test]
fn sized_queue_overwrites_when_full() {
    let mut q: SizedQueue<u32, 2> = SizedQueue::new();
    q.push(1);
    q.push(2);
    q.push(3);
    // The write cursor wrapped onto the oldest element's slot.
    assert_eq!(q.pop(), Some(3));
    assert_eq!(q.pop(), Some(2));
    assert_eq!(q.pop(), None);
}

#[test]
fn sized_string_truncates_and_pads() {
    let s: SizedString<4> = SizedString::new_truncate("abcdef");
    assert_eq!(s.bytes, *b"abcd");
    let s: SizedString<4> = SizedString::new_truncate("ab");
    assert_eq!(s.bytes, [b'a', b'b', 0, 0]);
}

#[test]
fn translate_result_decodes_kernel_answers() {
    assert_eq!(translate_result(0x1000), Ok(0x1000));
    assert_eq!(translate_result(-1), Err(TranslateAddressError::PermissionDenied));
    assert_eq!(translate_result(-2), Err(TranslateAddressError::AddressNotMapped));
    assert_eq!(TranslateAddressError::AddressNotMapped.as_str(), "address is not mapped");
}

#[test]
fn driver_input_keeps_events_in_order() {
    let mut input: DriverInput<(), u32, Vec<u8>> = DriverInput::new(());
    assert_eq!(input.id, 0);
    assert!(input.render.is_empty());
    input.render.push(9);
    for e in 0..DRIVER_INPUT_EVENT_CAPACITY as u32 {
        assert_eq!(input.push_event(e), None);
    }
    // Full: the oldest event is dropped to make room.
    assert_eq!(input.push_event(100), Some(0));
    assert_eq!(input.push_event(101), Some(1));
    let drained = input.drain_events();
    let mut expected: Vec<u32> = (2..DRIVER_INPUT_EVENT_CAPACITY as u32).collect();
    expected.push(100);
    expected.push(101);
    assert_eq!(drained, expected);
    assert_eq!(input.drain_events(), Vec::<u32>::new());
    assert_eq!(input.push_event(7), None);
    assert_eq!(input.drain_events(), vec![7]);
    assert_eq!(input.render, vec![9]);
}
