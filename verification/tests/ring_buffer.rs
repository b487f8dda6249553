use rtos_hazards::ring_buffer::{RingBuffer, BUFFER_SIZE};

#[test]
fn new_buffer_is_empty() {
    let mut rb: RingBuffer<u64> = RingBuffer::new();
    assert_eq!(rb.len(), 0);
    assert_eq!(rb.pop(), None);
    assert_eq!(rb.len(), 0);
}

#[test]
fn push_then_pop_round_trip() {
    let mut rb: RingBuffer<u64> = RingBuffer::new();
    assert!(rb.push(42));
    assert_eq!(rb.len(), 1);
    assert_eq!(rb.pop(), Some(42));
    assert_eq!(rb.len(), 0);
    assert_eq!(rb.pop(), None);
}

#[test]
fn items_come_out_in_order() {
    let mut rb: RingBuffer<u32> = RingBuffer::new();
    for i in 0..10u32 {
        assert!(rb.push(i * 3));
    }
    assert_eq!(rb.len(), 10);
    for i in 0..10u32 {
        assert_eq!(rb.pop(), Some(i * 3));
    }
    assert_eq!(rb.pop(), None);
}

#[test]
fn full_buffer_refuses_push() {
    let mut rb: RingBuffer<u64> = RingBuffer::new();
    for i in 0..BUFFER_SIZE as u64 {
        assert!(rb.push(i));
    }
    assert_eq!(rb.len(), 1024);
    assert!(!rb.push(9999));
    assert_eq!(rb.len(), 1024);
    assert_eq!(rb.pop(), Some(0));
    assert!(rb.push(9999));
    for i in 1..1024u64 {
        assert_eq!(rb.pop(), Some(i));
    }
    assert_eq!(rb.pop(), Some(9999));
    assert_eq!(rb.pop(), None);
}

#[test]
fn wraps_around_the_slots_many_times() {
    let mut rb: RingBuffer<u64> = RingBuffer::new();
    let mut next_in = 0u64;
    let mut next_out = 0u64;
    for _ in 0..1000 {
        for _ in 0..3 {
            assert!(rb.push(next_in));
            next_in += 1;
        }
        for _ in 0..2 {
            assert_eq!(rb.pop(), Some(next_out));
            next_out += 1;
        }
    }
    assert_eq!(rb.len() as u64, next_in - next_out);
    assert_eq!(rb.len(), 1000);
}

#[test]
fn producer_consumer_sum_matches_formula() {
    let mut rb: RingBuffer<u64> = RingBuffer::new();
    let n = 10_000u64;
    let mut sum = 0u64;
    let mut count = 0u64;
    let mut next = 0u64;
    while count < n {
        while next < n && rb.push(next) {
            next += 1;
        }
        while let Some(v) = rb.pop() {
            sum = sum.wrapping_add(v);
            count += 1;
        }
    }
    assert_eq!(sum, rtos_hazards::reports::expected_sum(n));
    assert_eq!(sum, 49_995_000);
}
