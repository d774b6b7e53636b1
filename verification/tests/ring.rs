use minau::ring::RingBuffer;

#[test]
fn pops_come_in_push_order() {
    let mut ring: RingBuffer<i32> = RingBuffer::new(4);
    for v in [10, 20, 30, 40] {
        assert_eq!(ring.push(v), Ok(()));
    }
    assert!(ring.is_full());
    assert_eq!(ring.pop(), Some(10));
    assert_eq!(ring.pop(), Some(20));
    assert_eq!(ring.pop(), Some(30));
    assert_eq!(ring.pop(), Some(40));
    assert_eq!(ring.pop(), None);
    assert!(ring.is_empty());
}

#[test]
fn full_ring_hands_the_item_back() {
    let mut ring: RingBuffer<u8> = RingBuffer::new(2);
    assert_eq!(ring.push(1), Ok(()));
    assert_eq!(ring.push(2), Ok(()));
    assert_eq!(ring.push(3), Err(3));
    assert_eq!(ring.len(), 2);
    assert_eq!(ring.free_len(), 0);
    assert_eq!(ring.pop(), Some(1));
    assert_eq!(ring.push(3), Ok(()));
    assert_eq!(ring.pop(), Some(2));
    assert_eq!(ring.pop(), Some(3));
}

#[test]
fn order_survives_wrapping_around() {
    let mut ring: RingBuffer<u32> = RingBuffer::new(3);
    let mut next_in = 0u32;
    let mut next_out = 0u32;
    for round in 0..50 {
        let burst = 1 + round % 3;
        for _ in 0..burst {
            if ring.push(next_in).is_ok() {
                next_in += 1;
            }
        }
        for _ in 0..(1 + round % 2) {
            if let Some(v) = ring.pop() {
                assert_eq!(v, next_out);
                next_out += 1;
            }
        }
        assert_eq!(ring.len() as u32, next_in - next_out);
        assert_eq!(ring.len() + ring.free_len(), ring.capacity());
    }
}

#[test]
fn ring_without_slots_is_always_full() {
    let mut ring: RingBuffer<u8> = RingBuffer::new(0);
    assert_eq!(ring.capacity(), 0);
    assert!(ring.is_empty());
    assert!(ring.is_full());
    assert_eq!(ring.push(7), Err(7));
    assert_eq!(ring.pop(), None);
}

#[test]
fn clear_empties_the_ring() {
    let mut ring: RingBuffer<u8> = RingBuffer::new(3);
    ring.push(1).unwrap();
    ring.push(2).unwrap();
    ring.pop();
    ring.clear();
    assert_eq!(ring.len(), 0);
    assert_eq!(ring.free_len(), 3);
    assert_eq!(ring.pop(), None);
    assert_eq!(ring.push(9), Ok(()));
    assert_eq!(ring.pop(), Some(9));
}
