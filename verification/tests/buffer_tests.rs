use terminal_emulator::buffer::RingBuffer;

/// Everything the iterator yields, oldest first.
fn collect_all(rb: &RingBuffer<i32>) -> Vec<i32> {
    let mut out = Vec::new();
    let mut it = rb.iter();
    while let Some(x) = it.next() {
        out.push(*x);
    }
    out
}

#[test]
fn new_buffer_is_empty() {
    let rb = RingBuffer::<i32>::new(4);
    assert!(rb.is_empty());
    assert_eq!(rb.len(), 0);
    assert_eq!(rb.capacity(), 4);
}

#[test]
fn capacity_accessor() {
    let rb = RingBuffer::<u8>::new(8);
    assert_eq!(rb.capacity(), 8);
}

#[test]
fn push_and_get_basic() {
    let mut rb = RingBuffer::new(4);
    rb.push(10);
    rb.push(20);
    rb.push(30);
    assert_eq!(rb.len(), 3);
    assert_eq!(rb.get(0), Some(&10)); // oldest
    assert_eq!(rb.get(1), Some(&20));
    assert_eq!(rb.get(2), Some(&30)); // newest
    assert_eq!(rb.get(3), None); // out of range
}

#[test]
fn get_out_of_range_returns_none() {
    let mut rb = RingBuffer::new(4);
    rb.push(1);
    assert_eq!(rb.get(1), None);
    assert_eq!(rb.get(100), None);
}

#[test]
fn wrap_around_overwrites_oldest() {
    let mut rb = RingBuffer::new(3);
    rb.push(1);
    rb.push(2);
    rb.push(3);
    rb.push(4); // overwrites 1 -> [2, 3, 4]
    assert_eq!(rb.len(), 3);
    assert_eq!(rb.get(0), Some(&2));
    assert_eq!(rb.get(1), Some(&3));
    assert_eq!(rb.get(2), Some(&4));
}

#[test]
fn wrap_around_multiple_laps() {
    let mut rb = RingBuffer::new(3);
    for i in 0..9u32 {
        rb.push(i);
    }
    assert_eq!(rb.len(), 3);
    assert_eq!(rb.get(0), Some(&6));
    assert_eq!(rb.get(1), Some(&7));
    assert_eq!(rb.get(2), Some(&8));
}

#[test]
fn clear_resets_state() {
    let mut rb = RingBuffer::new(4);
    rb.push(1);
    rb.push(2);
    rb.clear();
    assert!(rb.is_empty());
    assert_eq!(rb.len(), 0);
    assert_eq!(rb.get(0), None);
}

#[test]
fn clear_then_reuse() {
    let mut rb = RingBuffer::new(3);
    rb.push(10);
    rb.push(20);
    rb.clear();
    rb.push(99);
    assert_eq!(rb.len(), 1);
    assert_eq!(rb.get(0), Some(&99));
}

#[test]
fn clear_after_wrap_resets_correctly() {
    let mut rb = RingBuffer::new(3);
    rb.push(1);
    rb.push(2);
    rb.push(3);
    rb.push(4); // wraps head
    rb.clear();
    assert!(rb.is_empty());
    rb.push(42);
    assert_eq!(rb.get(0), Some(&42));
    assert_eq!(rb.len(), 1);
}

#[test]
fn iter_empty() {
    let rb = RingBuffer::<i32>::new(4);
    assert_eq!(collect_all(&rb).len(), 0);
}

#[test]
fn iter_partial_fill() {
    let mut rb = RingBuffer::new(4);
    rb.push(1);
    rb.push(2);
    assert_eq!(collect_all(&rb), vec![1, 2]);
}

#[test]
fn iter_after_wrap() {
    let mut rb = RingBuffer::new(3);
    rb.push(1);
    rb.push(2);
    rb.push(3);
    rb.push(4); // oldest (1) overwritten
    assert_eq!(collect_all(&rb), vec![2, 3, 4]);
}

#[test]
fn capacity_1_works() {
    let mut rb = RingBuffer::new(1);
    rb.push(42);
    assert_eq!(rb.get(0), Some(&42));
    rb.push(99);
    assert_eq!(rb.get(0), Some(&99));
    assert_eq!(rb.len(), 1);
}

#[test]
fn ring_keeps_exactly_the_newest_items_in_order() {
    let mut rb = RingBuffer::new(4);
    for i in 0..11 {
        rb.push(i);
    }
    assert_eq!(rb.len(), 4);
    assert_eq!(collect_all(&rb), vec![7, 8, 9, 10]);
    for i in 0..4 {
        assert_eq!(rb.get(i), Some(&(7 + i as i32)));
    }
    assert_eq!(rb.get(4), None);
}

#[test]
fn ring_never_exceeds_capacity() {
    let mut rb = RingBuffer::new(2);
    for i in 0..5 {
        rb.push(i);
        assert!(rb.len() <= rb.capacity());
        assert!(!rb.is_empty());
    }
}

#[test]
fn iterator_stays_exhausted() {
    let mut rb = RingBuffer::new(2);
    rb.push(5);
    let mut it = rb.iter();
    assert_eq!(it.next(), Some(&5));
    assert_eq!(it.next(), None);
    assert_eq!(it.next(), None);
}

#[test]
fn items_are_what_the_iterator_yields() {
    let mut rb = RingBuffer::new(3);
    assert_eq!(rb.items(), Vec::<&i32>::new());
    for i in 1..=4 {
        rb.push(i);
    }
    assert_eq!(rb.items(), vec![&2, &3, &4]);
    assert_eq!(collect_all(&rb), vec![2, 3, 4]);
}
