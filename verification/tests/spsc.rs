use polymarket_rust_rl::spsc::SpscRingBuffer;

#[test]
fn new_creates_power_of_two() {
    let rb = SpscRingBuffer::<u64>::new(16);
    assert_eq!(rb.capacity(), 16);
}

#[test]
fn new_rounds_up_capacity() {
    let rb = SpscRingBuffer::<u64>::new(13);
    assert_eq!(rb.capacity(), 16);
}

#[test]
fn new_minimum_capacity() {
    let rb = SpscRingBuffer::<u64>::new(1);
    assert_eq!(rb.capacity(), 2);
}

#[test]
fn new_zero_capacity_is_two() {
    let rb = SpscRingBuffer::<u64>::new(0);
    assert_eq!(rb.capacity(), 2);
    assert!(rb.is_empty());
}

#[test]
fn new_exact_and_next_powers() {
    assert_eq!(SpscRingBuffer::<u64>::new(2).capacity(), 2);
    assert_eq!(SpscRingBuffer::<u64>::new(3).capacity(), 4);
    assert_eq!(SpscRingBuffer::<u64>::new(17).capacity(), 32);
    assert_eq!(SpscRingBuffer::<u64>::new(1024).capacity(), 1024);
}

#[test]
fn push_pop_single() {
    let mut rb = SpscRingBuffer::<u64>::new(4);
    rb.try_push(42).unwrap();
    assert_eq!(rb.try_pop(), Some(42));
}

#[test]
fn push_pop_multiple() {
    let mut rb = SpscRingBuffer::<u64>::new(8);
    for i in 0..5 {
        rb.try_push(i).unwrap();
    }
    for i in 0..5 {
        assert_eq!(rb.try_pop(), Some(i));
    }
}

#[test]
fn empty_pop_returns_none() {
    let mut rb = SpscRingBuffer::<u64>::new(4);
    assert_eq!(rb.try_pop(), None);
}

#[test]
fn full_push_returns_err() {
    let mut rb = SpscRingBuffer::<u64>::new(4);
    for i in 0..4 {
        rb.try_push(i).unwrap();
    }
    assert_eq!(rb.try_push(99), Err(99));
}

#[test]
fn fill_and_drain() {
    let mut rb = SpscRingBuffer::<u64>::new(8);
    for i in 0..8 {
        rb.try_push(i).unwrap();
    }
    assert!(rb.is_full());
    for i in 0..8 {
        assert_eq!(rb.try_pop(), Some(i));
    }
    assert!(rb.is_empty());
}

#[test]
fn alternating_push_pop() {
    let mut rb = SpscRingBuffer::<u64>::new(4);
    for i in 0..100 {
        rb.try_push(i).unwrap();
        assert_eq!(rb.try_pop(), Some(i));
    }
}

#[test]
fn fifo_ordering() {
    let mut rb = SpscRingBuffer::<u64>::new(16);
    let values: Vec<u64> = (0..16).collect();
    for &v in &values {
        rb.try_push(v).unwrap();
    }
    for &expected in &values {
        assert_eq!(rb.try_pop(), Some(expected));
    }
}

#[test]
fn capacity_boundary() {
    let mut rb = SpscRingBuffer::<u64>::new(4);
    for i in 0..4 {
        rb.try_push(i).unwrap();
    }
    assert!(rb.try_push(99).is_err());
    rb.try_pop().unwrap();
    rb.try_push(99).unwrap();
}

#[test]
fn wrapping_behavior() {
    let mut rb = SpscRingBuffer::<u64>::new(4);
    for round in 0..50 {
        for j in 0..3 {
            rb.try_push(round * 3 + j).unwrap();
        }
        for j in 0..3 {
            assert_eq!(rb.try_pop(), Some(round * 3 + j));
        }
    }
}

#[test]
fn drain_into_basic() {
    let mut rb = SpscRingBuffer::<u64>::new(8);
    for i in 0..5 {
        rb.try_push(i).unwrap();
    }
    let mut buf = Vec::new();
    let count = rb.drain_into(&mut buf, 10);
    assert_eq!(count, 5);
    assert_eq!(buf, vec![0, 1, 2, 3, 4]);
}

#[test]
fn drain_into_max_limit() {
    let mut rb = SpscRingBuffer::<u64>::new(8);
    for i in 0..5 {
        rb.try_push(i).unwrap();
    }
    let mut buf = Vec::new();
    let count = rb.drain_into(&mut buf, 3);
    assert_eq!(count, 3);
    assert_eq!(buf, vec![0, 1, 2]);
}

#[test]
fn drain_into_empty() {
    let mut rb = SpscRingBuffer::<u64>::new(8);
    let mut buf = Vec::new();
    let count = rb.drain_into(&mut buf, 10);
    assert_eq!(count, 0);
    assert!(buf.is_empty());
}

#[test]
fn drain_into_appends_and_leaves_rest() {
    let mut rb = SpscRingBuffer::<u64>::new(8);
    for i in 0..6 {
        rb.try_push(i).unwrap();
    }
    let mut buf = vec![100];
    assert_eq!(rb.drain_into(&mut buf, 4), 4);
    assert_eq!(buf, vec![100, 0, 1, 2, 3]);
    assert_eq!(rb.len(), 2);
    assert_eq!(rb.try_pop(), Some(4));
    assert_eq!(rb.try_pop(), Some(5));
    assert_eq!(rb.try_pop(), None);
}

#[test]
fn producer_len() {
    let mut rb = SpscRingBuffer::<u64>::new(8);
    assert_eq!(rb.len(), 0);
    rb.try_push(1).unwrap();
    assert_eq!(rb.len(), 1);
    rb.try_push(2).unwrap();
    assert_eq!(rb.len(), 2);
}

#[test]
fn consumer_len() {
    let mut rb = SpscRingBuffer::<u64>::new(8);
    rb.try_push(1).unwrap();
    rb.try_push(2).unwrap();
    assert_eq!(rb.len(), 2);
    rb.try_pop();
    assert_eq!(rb.len(), 1);
}

#[test]
fn producer_is_empty() {
    let mut rb = SpscRingBuffer::<u64>::new(4);
    assert!(rb.is_empty());
    rb.try_push(1).unwrap();
    assert!(!rb.is_empty());
}

#[test]
fn producer_is_full() {
    let mut rb = SpscRingBuffer::<u64>::new(4);
    assert!(!rb.is_full());
    for i in 0..4 {
        rb.try_push(i).unwrap();
    }
    assert!(rb.is_full());
}

#[test]
fn rejected_push_leaves_queue_unchanged() {
    let mut rb = SpscRingBuffer::<u64>::new(2);
    rb.try_push(7).unwrap();
    rb.try_push(8).unwrap();
    assert_eq!(rb.try_push(9), Err(9));
    assert_eq!(rb.len(), 2);
    assert_eq!(rb.try_pop(), Some(7));
    assert_eq!(rb.try_pop(), Some(8));
}

#[test]
fn push_overwrite_with_room_evicts_nothing() {
    let mut rb = SpscRingBuffer::<u64>::new(4);
    assert_eq!(rb.push_overwrite(1), None);
    assert_eq!(rb.push_overwrite(2), None);
    assert_eq!(rb.len(), 2);
    assert_eq!(rb.try_pop(), Some(1));
    assert_eq!(rb.try_pop(), Some(2));
}

#[test]
fn push_overwrite_when_full_evicts_oldest() {
    let mut rb = SpscRingBuffer::<u64>::new(2);
    assert_eq!(rb.push_overwrite(10), None);
    assert_eq!(rb.push_overwrite(11), None);
    assert_eq!(rb.push_overwrite(12), Some(10));
    assert_eq!(rb.push_overwrite(13), Some(11));
    assert_eq!(rb.len(), 2);
    let mut out = Vec::new();
    assert_eq!(rb.drain_into(&mut out, usize::MAX), 2);
    assert_eq!(out, vec![12, 13]);
}

#[test]
fn len_never_exceeds_capacity() {
    let mut rb = SpscRingBuffer::<u64>::new(3);
    for i in 0..20 {
        rb.push_overwrite(i);
        assert!(rb.len() <= rb.capacity());
    }
    assert_eq!(rb.capacity(), 4);
    assert_eq!(rb.len(), 4);
}
