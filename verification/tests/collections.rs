use hoarder::collections::{Array, RingBuffer};
use hoarder::error::HoarderError;

// ==========================================
// Array Tests
// ==========================================

#[test]
fn test_array_initialization() {
    let arr = Array::new(42, 5);
    assert_eq!(arr.len(), 5);
    for i in 0..5 {
        assert_eq!(*arr.get(i), 42);
    }
}

#[test]
fn test_array_mutation() {
    let mut arr = Array::new(0, 3);
    arr.set(0, 10);
    arr.set(1, 20);
    arr.set(2, 30);

    assert_eq!(*arr.get(0), 10);
    assert_eq!(*arr.get(1), 20);
    assert_eq!(*arr.get(2), 30);
}

#[test]
fn test_array_deref_slice() {
    let arr = Array::new(7, 4);
    let slice: &[i32] = arr.as_slice();
    assert_eq!(slice, &[7, 7, 7, 7]);
}

#[test]
fn array_from_fixed_iter_keeps_the_first_items() {
    let arr = Array::from_fixed_iter(3, vec![5u8, 6, 7, 8]);
    assert_eq!(arr.as_slice(), &[5, 6, 7]);
}

// ==========================================
// RingBuffer Tests
// ==========================================

#[test]
fn test_ring_buffer_basic_push_pop() {
    let mut rb = RingBuffer::new(3);
    assert!(rb.is_empty());
    assert_eq!(rb.capacity(), 3);
    assert_eq!(rb.len(), 0);

    assert!(rb.push(10).is_ok());
    assert!(rb.push(20).is_ok());

    assert_eq!(rb.len(), 2);
    assert!(!rb.is_empty());

    assert_eq!(rb.pop(), Some(10));
    assert_eq!(rb.pop(), Some(20));
    assert!(rb.is_empty());
    assert_eq!(rb.pop(), None); // Pop when empty
}

#[test]
fn test_ring_buffer_full_capacity() {
    let mut rb = RingBuffer::new(2);

    assert!(rb.push(100).is_ok());
    assert!(rb.push(200).is_ok());
    assert!(rb.is_full());

    // Pushing to a full buffer should return an error
    assert!(rb.push(300).is_err());
    assert_eq!(rb.len(), 2);
}

#[test]
fn test_ring_buffer_wrap_around() {
    let mut rb = RingBuffer::new(3);

    rb.push(1).unwrap();
    rb.push(2).unwrap();
    rb.push(3).unwrap();

    assert_eq!(rb.pop(), Some(1));

    rb.push(4).unwrap();
    assert!(rb.is_full());

    assert_eq!(rb.pop(), Some(2));
    assert_eq!(rb.pop(), Some(3));
    assert_eq!(rb.pop(), Some(4));
    assert!(rb.is_empty());
}

#[test]
fn test_ring_buffer_memory_cleanup() {
    let mut rb = RingBuffer::new(5);
    rb.push(String::from("hello")).unwrap();
    rb.push(String::from("world")).unwrap();
    let _ = rb.pop();
}

#[test]
fn ring_buffer_full_push_is_push_error() {
    let mut rb = RingBuffer::new(1);
    rb.push(1u8).unwrap();
    assert!(matches!(rb.push(2u8), Err(HoarderError::PushError)));
    assert_eq!(rb.pop(), Some(1));
}

#[test]
fn ring_buffer_from_fixed_iter_pops_in_order() {
    let mut rb = RingBuffer::from_fixed_iter(3, vec![9u32, 8, 7, 6]);
    assert!(rb.is_full());
    assert_eq!(rb.pop(), Some(9));
    assert_eq!(rb.pop(), Some(8));
    assert_eq!(rb.pop(), Some(7));
    assert_eq!(rb.pop(), None);
}

#[test]
fn ring_buffer_fifo_over_many_wraps() {
    let mut rb = RingBuffer::new(4);
    let mut next_in = 0u32;
    let mut next_out = 0u32;
    for round in 0..50u32 {
        for _ in 0..(round % 4 + 1) {
            if rb.push(next_in).is_ok() {
                next_in += 1;
            }
        }
        for _ in 0..(round % 3 + 1) {
            if let Some(v) = rb.pop() {
                assert_eq!(v, next_out);
                next_out += 1;
            }
        }
        assert_eq!(rb.len() as u32, next_in - next_out);
    }
}

#[test]
fn ring_buffer_len_counts_pushes_minus_pops() {
    let mut rb = RingBuffer::new(3);
    for x in 0..4u32 {
        let _ = rb.push(x);
    }
    assert_eq!(rb.len(), 3);
    assert!(rb.is_full());
    assert_eq!(rb.pop(), Some(0));
    assert_eq!(rb.pop(), Some(1));
    assert_eq!(rb.len(), 1);
    assert_eq!(rb.pop(), Some(2));
    assert_eq!(rb.pop(), None);
    assert_eq!(rb.len(), 0);
    assert!(rb.is_empty());
    assert_eq!(rb.capacity(), 3);
}
