use hoarder::mem::{AlignedBuffers, BufferHandle, BufferPool, GenAlloc, GenId, ObjectHandle, ObjectPool, OBJECT_POOL_MASK};

#[test]
fn gen_alloc_hands_out_the_lowest_index_last() {
    let mut alloc = GenAlloc::new(4, 0);
    assert_eq!(alloc.peek_free(), Some(3));
    assert_eq!(alloc.allocate(), Some(GenId { index: 3, generation: 0 }));
    assert_eq!(alloc.allocate(), Some(GenId { index: 2, generation: 0 }));
    assert_eq!(alloc.allocate(), Some(GenId { index: 1, generation: 0 }));
    assert_eq!(alloc.allocate(), Some(GenId { index: 0, generation: 0 }));
    assert_eq!(alloc.allocate(), None);
    assert_eq!(alloc.peek_free(), None);
}

#[test]
fn gen_alloc_free_makes_the_old_id_stale() {
    let mut alloc = GenAlloc::new(2, 0);
    let first = alloc.allocate().unwrap();
    let second = alloc.allocate().unwrap();
    assert!(alloc.is_valid(first));
    assert!(alloc.free(first));
    assert!(!alloc.is_valid(first));
    assert!(alloc.is_valid(second));
    // A second free of the same identifier is refused.
    assert!(!alloc.free(first));
    let again = alloc.allocate().unwrap();
    assert_eq!(again, GenId { index: first.index, generation: first.generation + 1 });
    assert!(alloc.is_valid(again));
}

#[test]
fn gen_alloc_rejects_out_of_range_ids() {
    let alloc = GenAlloc::new(2, 0);
    assert!(!alloc.is_valid(GenId { index: 2, generation: 0 }));
    assert!(!alloc.is_valid(GenId { index: 0, generation: 1 }));
    assert!(alloc.is_valid(GenId { index: 1, generation: 0 }));
}

#[test]
fn gen_alloc_capacity_is_masked() {
    let mut alloc = GenAlloc::new(0x0100_0002, OBJECT_POOL_MASK);
    assert!(alloc.allocate().is_some());
    assert!(alloc.allocate().is_some());
    assert!(alloc.allocate().is_none());
}

#[test]
fn aligned_buffers_are_aligned_and_adjacent() {
    let bufs = AlignedBuffers::new(3, 64, 64).unwrap();
    assert_eq!(bufs.count(), 3);
    assert_eq!(bufs.buf_size(), 64);
    assert_eq!(bufs.alignment(), 64);
    assert_eq!(bufs.buf_ptr(0) % 64, 0);
    assert_eq!(bufs.buf_ptr(1), bufs.buf_ptr(0) + 64);
    assert_eq!(bufs.buf_ptr(2), bufs.buf_ptr(0) + 128);
    assert!(bufs.buf(1).iter().all(|b| *b == 0));
}

#[test]
fn aligned_buffers_write_lands_in_one_buffer() {
    let mut bufs = AlignedBuffers::new(2, 8, 8).unwrap();
    let p = bufs.buf_ptr_mut(1);
    assert_eq!(p, bufs.buf_ptr(1));
    bufs.write_at(1, 2, &[7, 8, 9]);
    assert_eq!(bufs.buf(1), &[0, 0, 7, 8, 9, 0, 0, 0]);
    assert_eq!(bufs.buf(0), &[0u8; 8]);
    bufs.buf_mut(0)[7] = 1;
    assert_eq!(bufs.buf(0), &[0, 0, 0, 0, 0, 0, 0, 1]);
    assert_eq!(bufs.buf(1), &[0, 0, 7, 8, 9, 0, 0, 0]);
}

#[test]
fn buffer_pool_write_then_read() {
    let mut pool: BufferPool<4096, 4096> = BufferPool::new(2).unwrap();
    assert_eq!(pool.pool().count(), 2);
    let h = pool.allocate().unwrap();
    assert_eq!(h, BufferHandle(GenId { index: 1, generation: 0 }));
    assert!(pool.is_valid(h));
    pool.get_mut(h).unwrap()[..5].copy_from_slice(b"hello");
    assert_eq!(&pool.get(h).unwrap()[..5], b"hello");
    assert_eq!(pool.get(h).unwrap().len(), 4096);
}

#[test]
fn buffer_pool_free_invalidates_the_handle() {
    let mut pool: BufferPool<4096, 4096> = BufferPool::new(1).unwrap();
    let h = pool.allocate().unwrap();
    assert!(pool.allocate().is_none());
    assert!(pool.free(h));
    assert!(pool.get(h).is_none());
    assert!(pool.get_mut(h).is_none());
    assert!(!pool.free(h));
    let again = pool.allocate().unwrap();
    assert_eq!(again, BufferHandle(GenId { index: 0, generation: 1 }));
}

#[test]
fn object_handle_unpacks_its_fields() {
    let bits: u64 = (1u64 << 56) | (5u64 << 32) | 7;
    let h = ObjectHandle::from(bits);
    assert_eq!(h.pool_id(), 1);
    assert_eq!(h.index(), 5);
    assert_eq!(h.generation(), 7);
    assert_eq!(u64::from(h), bits);
    assert_eq!(ObjectHandle::from_bits(bits), h);
}

#[test]
fn object_pool_spawn_get_despawn() {
    let mut pool: ObjectPool<u32, 3> = ObjectPool::new(2);
    assert_eq!(pool.capacity(), 2);
    assert!(pool.is_ready_to_spawn());
    let a = pool.spawn(10).unwrap();
    let b = pool.spawn(20).unwrap();
    assert!(pool.spawn(30).is_none());
    assert_eq!(a.pool_id(), 3);
    assert_eq!(a.index(), 1);
    assert_eq!(b.index(), 0);
    assert_eq!(pool.get(a), Some(&10));
    assert_eq!(pool.get(b), Some(&20));
    *pool.get_mut(b).unwrap() = 21;
    assert_eq!(pool.get(b), Some(&21));
    assert!(pool.despawn(a));
    assert!(pool.get(a).is_none());
    assert!(pool.get_mut(a).is_none());
    assert!(!pool.despawn(a));
    let c = pool.spawn(40).unwrap();
    assert_eq!(c.index(), a.index());
    assert_eq!(c.generation(), a.generation() + 1);
    assert_eq!(pool.get(c), Some(&40));
    assert!(pool.get(a).is_none());
}

#[test]
fn buffer_pool_buffers_are_aligned_where_get_finds_them() {
    let mut pool: BufferPool<4096, 4096> = BufferPool::new(3).unwrap();
    let a = pool.allocate().unwrap();
    let b = pool.allocate().unwrap();
    assert_eq!(pool.buf_ptr(a) % 4096, 0);
    assert_eq!(pool.buf_ptr(b) % 4096, 0);
    assert_eq!(pool.get(a).unwrap().as_ptr() as usize, pool.buf_ptr(a));
    assert_eq!(pool.get(b).unwrap().as_ptr() as usize, pool.buf_ptr(b));
    assert_ne!(pool.buf_ptr(a), pool.buf_ptr(b));
}
