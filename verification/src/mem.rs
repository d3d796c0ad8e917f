use vstd::prelude::*;
use vstd::arithmetic::power2::is_pow2;

use crate::collections::{Array, RingBuffer};
use crate::error::{HoarderError, Result};

verus! {

broadcast use vstd::layout::layout_of_primitives;

/// `count` buffers of `buf_size` bytes each, laid out back to back in one
/// allocation whose first buffer starts at an address that is a multiple of
/// `alignment`.
#[derive(Debug)]
pub struct AlignedBuffers {
    storage: Vec<u8>,
    start: usize,
    base: usize,
    buf_size: usize,
    count: usize,
    alignment: usize,
    total_size: usize,
}

/// Reads the address of the first byte of `bytes` (`<[u8]>::as_ptr`, taken
/// as an integer). Of the address only this is stated: the bytes do not wrap
/// around the end of the address space, which Rust guarantees of every
/// allocated object. Where the allocator placed them is left open.
#[verifier::external_body]
fn start_address(bytes: &[u8]) -> (a: usize)
    ensures
        a + bytes@.len() <= usize::MAX,
{
    bytes.as_ptr() as usize
}

impl AlignedBuffers {
    /// The buffers' internal consistency.
    pub closed spec fn wf(&self) -> bool {
        &&& 0 < self.total_size <= isize::MAX
        &&& self.total_size == self.count * self.buf_size
        &&& is_pow2(self.alignment as int)
        &&& self.buf_size % self.alignment == 0
        &&& self.start < self.alignment
        &&& self.start + self.total_size <= self.storage@.len()
        &&& (self.base + self.start) % (self.alignment as int) == 0
        &&& self.base + self.storage@.len() <= usize::MAX
    }

    /// The address of the first byte of the first buffer.
    pub closed spec fn address(&self) -> int {
        self.base + self.start
    }

    /// The bytes of all buffers, back to back.
    pub closed spec fn bytes(&self) -> Seq<u8> {
        self.storage@.subrange(self.start as int, self.start + self.total_size)
    }

    /// The number of buffers.
    pub closed spec fn num_buffers(&self) -> nat {
        self.count as nat
    }

    /// The size of each buffer in bytes.
    pub closed spec fn buffer_size(&self) -> nat {
        self.buf_size as nat
    }

    /// The alignment of the first buffer.
    pub closed spec fn buffer_alignment(&self) -> nat {
        self.alignment as nat
    }

    /// The bytes of buffer `index`.
    pub closed spec fn buffer(&self, index: int) -> Seq<u8> {
        self.bytes().subrange(index * self.buf_size, (index + 1) * self.buf_size)
    }

    /// Allocates `count` zeroed buffers of `buf_size` bytes, the first one
    /// starting at a multiple of `alignment`; fails with `MemAllocFail` when the
    /// allocator cannot provide the memory.
    pub fn new(count: usize, buf_size: usize, alignment: usize) -> (r: Result<Self>)
        requires
            count * buf_size <= usize::MAX,
            is_pow2(alignment as int),
            buf_size % alignment == 0,
            0 < count * buf_size <= isize::MAX,
        ensures
            r is Err ==> (r matches Err(HoarderError::MemAllocFail)),
            r matches Ok(b) ==> {
                &&& b.wf()
                &&& b.num_buffers() == count
                &&& b.buffer_size() == buf_size
                &&& b.buffer_alignment() == alignment
                &&& b.address() % (alignment as int) == 0
                &&& b.bytes() == Seq::new((count * buf_size) as nat, |i: int| 0u8)
            },
    {
        let total = count * buf_size;
        proof {
            lemma_alignment_bounds(alignment as int, buf_size as int, total as int, count as int);
        }
        let padded = total + (alignment - 1);
        let mut storage: Vec<u8> = Vec::new();
        match storage.try_reserve(padded) {
            Ok(()) => {},
            Err(_) => {
                return Err(HoarderError::MemAllocFail);
            },
        }
        let mut i: usize = 0;
        while i < padded
            invariant
                i <= padded,
                storage@ == Seq::new(i as nat, |j: int| 0u8),
            decreases padded - i,
        {
            storage.push(0u8);
            i = i + 1;
        }
        let base = start_address(storage.as_slice());
        let rem = base % alignment;
        let start = if rem == 0 { 0 } else { alignment - rem };
        proof {
            lemma_align_up(base as int, alignment as int, rem as int, start as int);
        }
        let b = AlignedBuffers { storage, start, base, buf_size, count, alignment, total_size: total };
        assert(b.bytes() =~= Seq::new((count * buf_size) as nat, |i: int| 0u8));
        Ok(b)
    }

    /// The first buffer starts at a multiple of the alignment, which is a
    /// positive divisor of the buffer size.
    pub proof fn lemma_aligned_start(&self)
        requires
            self.wf(),
        ensures
            self.buffer_alignment() > 0,
            self.address() % (self.buffer_alignment() as int) == 0,
            (self.buffer_size() as int) % (self.buffer_alignment() as int) == 0,
    {
        reveal(is_pow2);
    }

    /// The buffers lie within the address space.
    pub proof fn lemma_address_bound(&self)
        requires
            self.wf(),
        ensures
            self.address() + self.bytes().len() <= usize::MAX,
            self.bytes().len() == self.num_buffers() * self.buffer_size(),
    {
    }

    /// The size of each buffer in bytes.
    pub fn buf_size(&self) -> (n: usize)
        ensures
            n == self.buffer_size(),
    {
        self.buf_size
    }

    /// The number of buffers.
    pub fn count(&self) -> (n: usize)
        ensures
            n == self.num_buffers(),
    {
        self.count
    }

    /// The alignment of the first buffer.
    pub fn alignment(&self) -> (n: usize)
        ensures
            n == self.buffer_alignment(),
    {
        self.alignment
    }

    /// The address of the first byte of buffer `index`.
    pub fn buf_ptr(&self, index: usize) -> (p: usize)
        requires
            self.wf(),
            index < self.num_buffers(),
        ensures
            p == self.address() + index * self.buffer_size(),
    {
        proof {
            lemma_index_in_range(index as int, self.count as int, self.buf_size as int);
        }
        self.base + self.start + index * self.buf_size
    }

    /// The address of the first byte of buffer `index`, for writing.
    pub fn buf_ptr_mut(&mut self, index: usize) -> (p: usize)
        requires
            old(self).wf(),
            index < old(self).num_buffers(),
        ensures
            p == old(self).address() + index * old(self).buffer_size(),
            *final(self) == *old(self),
    {
        self.buf_ptr(index)
    }

    /// The bytes of buffer `index`.
    pub fn buf(&self, index: usize) -> (s: &[u8])
        requires
            self.wf(),
            index < self.num_buffers(),
        ensures
            s@ == self.buffer(index as int),
    {
        proof {
            lemma_index_in_range(index as int, self.count as int, self.buf_size as int);
        }
        let lo = self.start + index * self.buf_size;
        let hi = lo + self.buf_size;
        let s = vstd::slice::slice_subrange(self.storage.as_slice(), lo, hi);
        assert(s@ =~= self.buffer(index as int));
        s
    }

    /// The bytes of buffer `index`, for writing; what is written there lands in
    /// that buffer and nowhere else.
    pub fn buf_mut(&mut self, index: usize) -> (s: &mut [u8])
        requires
            old(self).wf(),
            index < old(self).num_buffers(),
        ensures
            s@ == old(self).buffer(index as int),
            final(s)@.len() == s@.len() ==> {
                &&& final(self).wf()
                &&& final(self).num_buffers() == old(self).num_buffers()
                &&& final(self).buffer_size() == old(self).buffer_size()
                &&& final(self).buffer_alignment() == old(self).buffer_alignment()
                &&& final(self).address() == old(self).address()
                &&& final(self).bytes() == old(self).bytes().subrange(0, index * old(self).buffer_size())
                    + final(s)@ + old(self).bytes().subrange(
                        (index + 1) * old(self).buffer_size(), old(self).bytes().len() as int)
            },
    {
        proof {
            lemma_index_in_range(index as int, self.count as int, self.buf_size as int);
        }
        let lo = self.start + index * self.buf_size;
        let bs = self.buf_size;
        let ghost old_self = *self;
        let all = self.storage.as_mut_slice();
        let (_head, rest) = all.split_at_mut(lo);
        let (mid, _tail) = rest.split_at_mut(bs);
        assert(mid@ =~= old_self.buffer(index as int));
        proof {
            lemma_index_in_range(index as int, old_self.count as int, bs as int);
            lemma_splice_bytes(old_self.storage@, old_self.start as int, old_self.total_size as int,
                index * bs, bs as int);
        }
        mid
    }
}

impl AlignedBuffers {
    /// Replacing the bytes of one buffer, as a write through `buf_mut` does,
    /// gives that buffer the new bytes and leaves every other buffer as it was.
    pub proof fn lemma_write_one_buffer(self, new: Self, index: int, m: Seq<u8>)
        requires
            self.wf(),
            0 <= index < self.num_buffers(),
            m.len() == self.buffer_size(),
            new.buffer_size() == self.buffer_size(),
            new.bytes() == self.bytes().subrange(0, index * self.buffer_size()) + m
                + self.bytes().subrange((index + 1) * self.buffer_size(), self.bytes().len() as int),
        ensures
            new.buffer(index) == m,
            forall|j: int| 0 <= j < self.num_buffers() && j != index ==> #[trigger] new.buffer(j) == self.buffer(j),
    {
        lemma_other_buffers_kept(self.bytes(), new.bytes(), index, self.count as int, self.buf_size as int, m);
        assert(new.buffer(index) == new.bytes().subrange(index * self.buf_size, (index + 1) * self.buf_size));
        assert forall|j: int| 0 <= j < self.num_buffers() && j != index implies #[trigger] new.buffer(j) == self.buffer(j) by {
            assert(new.buffer(j) == new.bytes().subrange(j * self.buf_size, (j + 1) * self.buf_size));
        }
    }

    /// A single buffer spans all the bytes.
    pub proof fn lemma_buffer_len_one(&self)
        requires
            self.wf(),
            self.num_buffers() == 1,
        ensures
            self.buffer(0) == self.bytes(),
            self.bytes().len() == self.buffer_size(),
    {
        assert(self.buffer(0) =~= self.bytes());
    }

    /// Copies `data` into buffer `index`, starting `offset` bytes in; the rest
    /// of the memory stays as it was.
    pub fn write_at(&mut self, index: usize, offset: usize, data: &[u8])
        requires
            old(self).wf(),
            index < old(self).num_buffers(),
            offset + data@.len() <= old(self).buffer_size(),
        ensures
            final(self).wf(),
            final(self).num_buffers() == old(self).num_buffers(),
            final(self).buffer_size() == old(self).buffer_size(),
            final(self).buffer_alignment() == old(self).buffer_alignment(),
            final(self).address() == old(self).address(),
            final(self).bytes() == old(self).bytes().subrange(0, index * old(self).buffer_size() + offset)
                + data@ + old(self).bytes().subrange(index * old(self).buffer_size() + offset + data@.len(),
                    old(self).bytes().len() as int),
    {
        proof {
            lemma_index_in_range(index as int, self.count as int, self.buf_size as int);
        }
        let base = self.start + index * self.buf_size + offset;
        let ghost old_storage = self.storage@;
        let ghost old_self = *self;
        let mut i: usize = 0;
        while i < data.len()
            invariant
                i <= data@.len(),
                base + data@.len() <= old_storage.len(),
                old_storage.len() <= usize::MAX,
                self.storage@.len() == old_storage.len(),
                self.storage@ == old_storage.subrange(0, base as int) + data@.subrange(0, i as int)
                    + old_storage.subrange(base + i, old_storage.len() as int),
                self.start == old_self.start,
                self.base == old_self.base,
                self.count == old_self.count,
                self.buf_size == old_self.buf_size,
                self.alignment == old_self.alignment,
                self.total_size == old_self.total_size,
            decreases data@.len() - i,
        {
            self.storage.set(base + i, data[i]);
            i = i + 1;
            assert(self.storage@ =~= old_storage.subrange(0, base as int) + data@.subrange(0, i as int)
                + old_storage.subrange(base + i, old_storage.len() as int));
        }
        assert(data@.subrange(0, data@.len() as int) =~= data@);
        assert(self.bytes() =~= old_self.bytes().subrange(0, index * old_self.buf_size + offset)
            + data@ + old_self.bytes().subrange(index * old_self.buf_size + offset + data@.len(),
                old_self.bytes().len() as int));
    }
}

/// Facts on the sizes that `AlignedBuffers::new` works with.
proof fn lemma_alignment_bounds(alignment: int, buf_size: int, total: int, count: int)
    requires
        is_pow2(alignment),
        buf_size % alignment == 0,
        total == count * buf_size,
        0 < total <= isize::MAX,
        count >= 0,
        buf_size >= 0,
    ensures
        0 < alignment <= buf_size,
        total + alignment - 1 <= usize::MAX,
{
    reveal(is_pow2);
    assert(alignment > 0);
    assert(buf_size > 0) by (nonlinear_arith)
        requires total == count * buf_size, total > 0, count >= 0, buf_size >= 0;
    assert(count >= 1) by (nonlinear_arith)
        requires total == count * buf_size, total > 0, count >= 0, buf_size >= 0;
    assert(buf_size <= total) by (nonlinear_arith)
        requires total == count * buf_size, count >= 1, buf_size > 0;
    assert(alignment <= buf_size) by (nonlinear_arith)
        requires buf_size % alignment == 0, buf_size > 0, alignment > 0;
}

/// Rounding `base` up to the next multiple of `alignment`.
proof fn lemma_align_up(base: int, alignment: int, rem: int, start: int)
    requires
        alignment > 0,
        base >= 0,
        rem == base % alignment,
        start == if rem == 0 { 0 } else { alignment - rem },
    ensures
        0 <= start < alignment,
        (base + start) % alignment == 0,
{
    assert((base + start) % alignment == 0) by (nonlinear_arith)
        requires
            alignment > 0,
            base >= 0,
            rem == base % alignment,
            start == if rem == 0 { 0 } else { alignment - rem };
}

/// Replacing the bytes of buffer `index` of the `count` back-to-back
/// buffers in `old_s` leaves the other buffers as they were.
proof fn lemma_other_buffers_kept(old_s: Seq<u8>, new_s: Seq<u8>, index: int, count: int, bs: int, m: Seq<u8>)
    requires
        0 <= index < count,
        bs >= 0,
        old_s.len() == count * bs,
        m.len() == bs,
        new_s == old_s.subrange(0, index * bs) + m + old_s.subrange((index + 1) * bs, old_s.len() as int),
    ensures
        new_s.len() == old_s.len(),
        forall|j: int| 0 <= j < count ==>
            #[trigger] new_s.subrange(j * bs, (j + 1) * bs) == if j == index { m } else { old_s.subrange(j * bs, (j + 1) * bs) },
{
    lemma_index_in_range(index, count, bs);
    assert forall|j: int| 0 <= j < count implies
        #[trigger] new_s.subrange(j * bs, (j + 1) * bs) == if j == index { m } else { old_s.subrange(j * bs, (j + 1) * bs) } by {
        lemma_index_in_range(j, count, bs);
        if j < index {
            assert((j + 1) * bs <= index * bs) by (nonlinear_arith)
                requires j < index, bs >= 0;
        } else if j > index {
            assert(j * bs >= (index + 1) * bs) by (nonlinear_arith)
                requires j > index, bs >= 0;
        }
        assert(new_s.subrange(j * bs, (j + 1) * bs)
            =~= if j == index { m } else { old_s.subrange(j * bs, (j + 1) * bs) });
    }
}

/// Replacing `bs` bytes at `off` inside the window `[start, start + total)`
/// of `s` replaces the same bytes of the window.
proof fn lemma_splice_bytes(s: Seq<u8>, start: int, total: int, off: int, bs: int)
    requires
        0 <= start,
        0 <= off,
        0 <= bs,
        off + bs <= total,
        start + total <= s.len(),
    ensures
        forall|m: Seq<u8>| m.len() == bs ==> {
            let t = #[trigger] (s.subrange(0, start + off) + m + s.subrange(start + off + bs, s.len() as int));
            &&& t.len() == s.len()
            &&& t.subrange(start, start + total) == s.subrange(start, start + total).subrange(0, off) + m
                + s.subrange(start, start + total).subrange(off + bs, total)
        },
{
    assert forall|m: Seq<u8>| m.len() == bs implies {
        let t = #[trigger] (s.subrange(0, start + off) + m + s.subrange(start + off + bs, s.len() as int));
        &&& t.len() == s.len()
        &&& t.subrange(start, start + total) == s.subrange(start, start + total).subrange(0, off) + m
            + s.subrange(start, start + total).subrange(off + bs, total)
    } by {
        let t = s.subrange(0, start + off) + m + s.subrange(start + off + bs, s.len() as int);
        assert(t.subrange(start, start + total) =~= s.subrange(start, start + total).subrange(0, off) + m
            + s.subrange(start, start + total).subrange(off + bs, total));
    }
}

/// Buffer `index` lies inside the `count` buffers.
proof fn lemma_index_in_range(index: int, count: int, buf_size: int)
    requires
        0 <= index < count,
        buf_size >= 0,
    ensures
        0 <= index * buf_size,
        index * buf_size + buf_size <= count * buf_size,
        (index + 1) * buf_size == index * buf_size + buf_size,
{
    assert(index * buf_size + buf_size <= count * buf_size) by (nonlinear_arith)
        requires 0 <= index < count, buf_size >= 0;
    assert(0 <= index * buf_size) by (nonlinear_arith)
        requires 0 <= index, buf_size >= 0;
    assert((index + 1) * buf_size == index * buf_size + buf_size) by (nonlinear_arith);
}

} // verus!

verus! {

/// Identifies one slot of a generational allocator: the slot's index and
/// the generation it had when the identifier was handed out.
#[derive(Debug, Clone, Copy, PartialEq, Eq, Structural)]
pub struct GenId {
    pub index: u32,
    pub generation: u32,
}

/// Hands out slot identifiers and detects stale ones: freeing a slot bumps
/// its generation, so identifiers issued before the free no longer match.
pub struct GenAlloc {
    generation: Array<u32>,
    free_list: RingBuffer<u32>,
}

/// The generation that follows `g`; it wraps around at `u32::MAX`.
pub open spec fn next_generation(g: u32) -> u32 {
    if g == u32::MAX { 0 } else { (g + 1) as u32 }
}

/// The number of slots that `GenAlloc::new(capacity, mask)` makes:
/// `capacity & mask`, where a `mask` of zero means no limit.
pub open spec fn masked_capacity(capacity: u32, mask: u32) -> u32 {
    if mask == 0 { capacity } else { capacity & mask }
}

impl GenAlloc {
    /// The allocator's internal consistency.
    pub closed spec fn wf(&self) -> bool {
        &&& self.free_list.wf()
        &&& self.generation@.len() == self.free_list.spec_capacity()
        &&& forall|i: int| 0 <= i < self.free_list@.len() ==> (#[trigger] self.free_list@[i]) < self.generation@.len()
    }

    /// The current generation of each slot.
    pub closed spec fn generations(&self) -> Seq<u32> {
        self.generation@
    }

    /// The slots waiting to be handed out, next one first.
    pub closed spec fn free_indices(&self) -> Seq<u32> {
        self.free_list@
    }

    /// Whether `id` names a slot with its current generation.
    pub open spec fn valid(&self, id: GenId) -> bool {
        &&& id.index < self.generations().len()
        &&& id.generation == self.generations()[id.index as int]
    }

    /// A consequence of `wf` that callers use.
    pub proof fn lemma_wf(&self)
        requires
            self.wf(),
        ensures
            self.free_indices().len() <= self.generations().len(),
            forall|i: int| 0 <= i < self.free_indices().len() ==> (#[trigger] self.free_indices()[i]) < self.generations().len(),
    {
        self.free_list.lemma_len_bound();
    }

    /// Creates an allocator for `capacity & mask` slots (a `mask` of zero
    /// means no limit), all at generation zero, handed out from the highest
    /// index down.
    pub fn new(capacity: u32, mask: u32) -> (a: Self)
        requires
            masked_capacity(capacity, mask) > 0,
            masked_capacity(capacity, mask) * 4 <= isize::MAX,
        ensures
            a.wf(),
            a.generations() == Seq::new(masked_capacity(capacity, mask) as nat, |i: int| 0u32),
            a.free_indices() == Seq::new(masked_capacity(capacity, mask) as nat,
                |i: int| (masked_capacity(capacity, mask) - 1 - i) as u32),
    {
        assert(capacity & u32::MAX == capacity) by (bit_vector);
        let mask = if mask == 0 { u32::MAX } else { mask };
        let capacity = capacity & mask;
        let generation = Array::new(0u32, capacity as usize);
        let mut order: Vec<u32> = Vec::with_capacity(capacity as usize);
        let mut i: u32 = 0;
        while i < capacity
            invariant
                i <= capacity,
                order@ == Seq::new(i as nat, |j: int| (capacity - 1 - j) as u32),
            decreases capacity - i,
        {
            order.push(capacity - 1 - i);
            i = i + 1;
        }
        let free_list = RingBuffer::from_fixed_iter(capacity as usize, order);
        assert(order@.subrange(0, capacity as int) =~= order@);
        GenAlloc { generation, free_list }
    }

    /// The slot that the next `allocate` hands out, if any.
    pub fn peek_free(&self) -> (r: Option<u32>)
        requires
            self.wf(),
        ensures
            self.free_indices().len() > 0 ==> r == Some(self.free_indices()[0]),
            self.free_indices().len() == 0 ==> r is None,
    {
        self.free_list.peek()
    }

    /// The identifier that the next `allocate` hands out, if any.
    pub open spec fn next_id(&self) -> Option<GenId> {
        if self.free_indices().len() > 0 {
            let idx = self.free_indices()[0];
            Some(GenId { index: idx, generation: self.generations()[idx as int] })
        } else {
            None
        }
    }

    /// `new` is what `allocate` leaves of `self` when it returns `r`: the next
    /// free slot with its current generation, taken off the free list, or
    /// `None` and nothing changed.
    pub open spec fn after_allocate(self, new: Self, r: Option<GenId>) -> bool {
        &&& new.wf()
        &&& r == self.next_id()
        &&& r is None ==> new == self
        &&& r is Some ==> {
            &&& new.generations() == self.generations()
            &&& new.free_indices() == self.free_indices().drop_first()
        }
    }

    /// `new` is what `free(id)` leaves of `self`: for a current `id`, the
    /// slot's generation bumped and the slot queued again (unless the queue is
    /// full); for a stale one, nothing changed.
    pub open spec fn after_free(self, new: Self, id: GenId) -> bool {
        let gens = self.generations();
        let free = self.free_indices();
        &&& new.wf()
        &&& self.valid(id) ==> {
            &&& new.generations() == gens.update(id.index as int, next_generation(gens[id.index as int]))
            &&& new.free_indices() == if free.len() < gens.len() { free.push(id.index) } else { free }
        }
        &&& !self.valid(id) ==> new == self
    }

    /// Takes the next free slot, identified with its current generation;
    /// `None` when every slot is taken.
    pub fn allocate(&mut self) -> (r: Option<GenId>)
        requires
            old(self).wf(),
        ensures
            old(self).after_allocate(*final(self), r),
    {
        let idx = match self.free_list.pop() {
            Some(idx) => idx,
            None => {
                return None;
            },
        };
        let generation = *self.generation.get(idx as usize);
        Some(GenId { index: idx, generation })
    }

    /// Frees the slot of `id` when `id` is current: bumps the slot's
    /// generation and queues the slot again (unless the queue is full).
    /// Returns whether `id` was current; a stale `id` changes nothing.
    pub fn free(&mut self, id: GenId) -> (freed: bool)
        requires
            old(self).wf(),
        ensures
            freed == old(self).valid(id),
            old(self).after_free(*final(self), id),
    {
        if self.is_valid(id) {
            let ghost old_free = self.free_list@;
            proof {
                self.free_list.lemma_len_bound();
            }
            let g = *self.generation.get(id.index as usize);
            self.generation.set(id.index as usize, g.wrapping_add(1));
            let _ = self.free_list.push(id.index);
            proof {
                assert forall|i: int| 0 <= i < self.free_list@.len() implies (#[trigger] self.free_list@[i]) < self.generation@.len() by {
                    if i < old_free.len() {
                        assert(self.free_list@[i] == old_free[i]);
                    }
                }
            }
            true
        } else {
            false
        }
    }

    /// Whether `id` names a slot with its current generation.
    pub fn is_valid(&self, id: GenId) -> (b: bool)
        ensures
            b == self.valid(id),
    {
        let idx = id.index as usize;
        idx < self.generation.len() && id.generation == *self.generation.get(idx)
    }

    /// An identifier fresh from `allocate` is current.
    pub proof fn lemma_allocated_is_valid(self, new: Self, id: GenId)
        requires
            self.wf(),
            self.after_allocate(new, Some(id)),
        ensures
            new.valid(id),
    {
        self.free_list.lemma_len_bound();
    }

    /// Once freed, an identifier is stale: the slot's generation moved on.
    pub proof fn lemma_freed_is_stale(self, new: Self, id: GenId)
        requires
            self.wf(),
            self.valid(id),
            self.after_free(new, id),
        ensures
            !new.valid(id),
    {
    }

    /// Freeing one slot leaves every identifier of the other slots as current
    /// or as stale as it was.
    pub proof fn lemma_free_keeps_other_slots(self, new: Self, id: GenId, other: GenId)
        requires
            self.wf(),
            self.after_free(new, id),
            other.index != id.index,
        ensures
            new.valid(other) == self.valid(other),
    {
    }

    /// Allocating changes no slot's generation, so it makes no identifier
    /// stale.
    pub proof fn lemma_allocate_keeps_validity(self, new: Self, r: Option<GenId>, other: GenId)
        requires
            self.wf(),
            self.after_allocate(new, r),
        ensures
            new.valid(other) == self.valid(other),
    {
    }
}

} // verus!

verus! {

/// Names one buffer of a `BufferPool`.
#[derive(Debug, Clone, Copy, PartialEq, Eq, Structural)]
pub struct BufferHandle(pub GenId);

/// A pool of `count` buffers of `BUF_SIZE` bytes, aligned to `ALIGN`, handed
/// out and taken back through generational handles.
pub struct BufferPool<const BUF_SIZE: usize, const ALIGN: usize> {
    pool: AlignedBuffers,
    alloc: GenAlloc,
}

impl<const BUF_SIZE: usize, const ALIGN: usize> BufferPool<BUF_SIZE, ALIGN> {
    /// The pool's internal consistency.
    pub closed spec fn wf(&self) -> bool {
        &&& self.pool.wf()
        &&& self.alloc.wf()
        &&& self.pool.num_buffers() == self.alloc.generations().len()
        &&& self.pool.buffer_size() == BUF_SIZE
        &&& self.pool.buffer_alignment() == ALIGN
    }

    /// The buffers' memory.
    pub closed spec fn buffers(&self) -> AlignedBuffers {
        self.pool
    }

    /// The allocator that tracks which buffers are handed out.
    pub closed spec fn allocator(&self) -> GenAlloc {
        self.alloc
    }

    /// Whether `handle` names a buffer with its current generation.
    pub open spec fn valid(&self, handle: BufferHandle) -> bool {
        self.allocator().valid(handle.0)
    }

    /// The buffer that the next `allocate` hands out, if any.
    pub open spec fn next_handle(&self) -> Option<BufferHandle> {
        if self.allocator().free_indices().len() > 0 {
            let idx = self.allocator().free_indices()[0];
            Some(BufferHandle(GenId { index: idx, generation: self.allocator().generations()[idx as int] }))
        } else {
            None
        }
    }

    /// `new` is what `allocate` leaves of `self` when it returns `r`: the next
    /// free buffer, taken off the free list, or `None` and nothing changed.
    pub open spec fn after_allocate(self, new: Self, r: Option<BufferHandle>) -> bool {
        &&& new.wf()
        &&& r == self.next_handle()
        &&& r is None ==> new == self
        &&& r is Some ==> {
            &&& new.buffers() == self.buffers()
            &&& new.allocator().generations() == self.allocator().generations()
            &&& new.allocator().free_indices() == self.allocator().free_indices().drop_first()
        }
    }

    /// `new` is what `free(handle)` leaves of `self`: for a current handle,
    /// the buffer's generation bumped and the buffer queued again (unless the
    /// queue is full); for a stale one, nothing changed.
    pub open spec fn after_free(self, new: Self, handle: BufferHandle) -> bool {
        let gens = self.allocator().generations();
        let free = self.allocator().free_indices();
        &&& new.wf()
        &&& new.buffers() == self.buffers()
        &&& self.valid(handle) ==> {
            &&& new.allocator().generations() == gens.update(handle.0.index as int, next_generation(gens[handle.0.index as int]))
            &&& new.allocator().free_indices() == if free.len() < gens.len() { free.push(handle.0.index) } else { free }
        }
        &&& !self.valid(handle) ==> new == self
    }

    /// A buffer fresh from `allocate` is current; once freed, its handle is
    /// stale.
    pub proof fn lemma_allocate_then_free(self, mid: Self, h: BufferHandle, new: Self)
        requires
            self.wf(),
            self.after_allocate(mid, Some(h)),
            mid.after_free(new, h),
        ensures
            mid.valid(h),
            !new.valid(h),
    {
        self.alloc.lemma_allocated_is_valid(mid.alloc, h.0);
        mid.alloc.lemma_freed_is_stale(new.alloc, h.0);
    }

    /// Buffers of distinct current handles never overlap: writing `m` into
    /// the buffer of `h`, as through `get_mut(h)`, gives that buffer the
    /// bytes `m` and leaves the buffer of every other current handle as it
    /// was.
    pub proof fn lemma_write_keeps_other_buffers(self, new: Self, h: BufferHandle, m: Seq<u8>, other: BufferHandle)
        requires
            self.wf(),
            self.valid(h),
            self.valid(other),
            other != h,
            m.len() == BUF_SIZE,
            new.buffers().buffer_size() == BUF_SIZE,
            new.buffers().bytes() == self.buffers().bytes().subrange(0, h.0.index * BUF_SIZE) + m
                + self.buffers().bytes().subrange((h.0.index + 1) * BUF_SIZE, self.buffers().bytes().len() as int),
        ensures
            other.0.index != h.0.index,
            new.buffers().buffer(h.0.index as int) == m,
            new.buffers().buffer(other.0.index as int) == self.buffers().buffer(other.0.index as int),
    {
        self.lemma_wf();
        self.pool.lemma_write_one_buffer(new.pool, h.0.index as int, m);
    }

    /// Every buffer of the pool starts at a multiple of `ALIGN`: the address
    /// that `pool().buf_ptr` gives for the buffer of a current handle.
    pub proof fn lemma_buffer_aligned(&self, h: BufferHandle)
        requires
            self.wf(),
            self.valid(h),
        ensures
            (self.buffers().address() + h.0.index * BUF_SIZE) % (ALIGN as int) == 0,
            h.0.index < self.buffers().num_buffers(),
    {
        self.lemma_wf();
        self.pool.lemma_aligned_start();
        let a = self.buffers().address();
        let i = h.0.index as int;
        let al = ALIGN as int;
        let q = (BUF_SIZE as int) / al;
        let p = a / al;
        vstd::arithmetic::div_mod::lemma_fundamental_div_mod(BUF_SIZE as int, al);
        vstd::arithmetic::div_mod::lemma_fundamental_div_mod(a, al);
        assert(a + i * BUF_SIZE == al * (p + i * q)) by (nonlinear_arith)
            requires
                a == al * p + 0,
                BUF_SIZE as int == al * q + 0;
        vstd::arithmetic::div_mod::lemma_mod_multiples_basic(p + i * q, al);
        assert((p + i * q) * al == al * (p + i * q)) by (nonlinear_arith);
    }

    /// Every buffer of the pool is `BUF_SIZE` bytes long.
    pub proof fn lemma_buffer_len(&self, index: int)
        requires
            self.wf(),
            0 <= index < self.buffers().num_buffers(),
        ensures
            self.buffers().buffer(index).len() == BUF_SIZE,
    {
        lemma_index_in_range(index, self.pool.count as int, BUF_SIZE as int);
    }

    /// A consequence of `wf` that callers use.
    pub proof fn lemma_wf(&self)
        requires
            self.wf(),
        ensures
            self.buffers().wf(),
            self.allocator().wf(),
            self.buffers().num_buffers() == self.allocator().generations().len(),
            self.buffers().buffer_size() == BUF_SIZE,
    {
    }

    /// Whether the pool is as `new(count)` makes it: `count` zeroed buffers,
    /// the first at a multiple of `ALIGN`, all free at generation zero, to be
    /// handed out from the highest index down.
    pub open spec fn is_fresh(&self, count: u32) -> bool {
        &&& self.buffers().num_buffers() == count
        &&& self.buffers().buffer_alignment() == ALIGN
        &&& self.buffers().address() % (ALIGN as int) == 0
        &&& self.buffers().bytes() == Seq::new((count * BUF_SIZE) as nat, |i: int| 0u8)
        &&& self.allocator().generations() == Seq::new(count as nat, |i: int| 0u32)
        &&& self.allocator().free_indices() == Seq::new(count as nat, |i: int| (count - 1 - i) as u32)
    }

    /// Creates a pool of `count` zeroed buffers, all free; fails with
    /// `MemAllocFail` when the memory cannot be had.
    pub fn new(count: u32) -> (r: Result<Self>)
        requires
            count > 0,
            BUF_SIZE > 0,
            count * BUF_SIZE <= isize::MAX,
            count * 4 <= isize::MAX,
            is_pow2(ALIGN as int),
            BUF_SIZE % ALIGN == 0,
        ensures
            r is Err ==> (r matches Err(HoarderError::MemAllocFail)),
            r matches Ok(p) ==> p.wf() && p.is_fresh(count),
    {
        assert(0 < count * BUF_SIZE) by (nonlinear_arith)
            requires count > 0, BUF_SIZE > 0;
        let pool = match AlignedBuffers::new(count as usize, BUF_SIZE, ALIGN) {
            Ok(pool) => pool,
            Err(e) => {
                return Err(e);
            },
        };
        let alloc = GenAlloc::new(count, 0);
        Ok(BufferPool { pool, alloc })
    }

    /// The buffers' memory.
    pub fn pool(&self) -> (p: &AlignedBuffers)
        ensures
            *p == self.buffers(),
    {
        &self.pool
    }

    /// Takes a free buffer; `None` when all are taken.
    pub fn allocate(&mut self) -> (r: Option<BufferHandle>)
        requires
            old(self).wf(),
        ensures
            old(self).after_allocate(*final(self), r),
    {
        let id = self.alloc.allocate();
        match id {
            Some(id) => Some(BufferHandle(id)),
            None => None,
        }
    }

    /// The bytes of the buffer that `handle` names, when `handle` is current.
    pub fn get(&self, handle: BufferHandle) -> (r: Option<&[u8]>)
        requires
            self.wf(),
        ensures
            self.valid(handle) ==> r is Some && r.unwrap()@ == self.buffers().buffer(handle.0.index as int),
            !self.valid(handle) ==> r is None,
    {
        if self.alloc.is_valid(handle.0) {
            Some(self.pool.buf(handle.0.index as usize))
        } else {
            None
        }
    }

    /// The bytes of the buffer that `handle` names, for writing, when
    /// `handle` is current. What is written lands in that buffer only.
    pub fn get_mut(&mut self, handle: BufferHandle) -> (r: Option<&mut [u8]>)
        requires
            old(self).wf(),
        ensures
            old(self).valid(handle) ==> {
                let idx = handle.0.index as int;
                let old_bytes = old(self).buffers().bytes();
                &&& r is Some
                &&& r.unwrap()@ == old(self).buffers().buffer(idx)
                &&& final(r.unwrap())@.len() == BUF_SIZE ==> {
                    &&& final(self).wf()
                    &&& final(self).allocator() == old(self).allocator()
                    &&& final(self).buffers().num_buffers() == old(self).buffers().num_buffers()
                    &&& final(self).buffers().address() == old(self).buffers().address()
                    &&& final(self).buffers().bytes() == old_bytes.subrange(0, idx * BUF_SIZE)
                        + final(r.unwrap())@ + old_bytes.subrange((idx + 1) * BUF_SIZE, old_bytes.len() as int)
                }
            },
            !old(self).valid(handle) ==> r is None && *final(self) == *old(self),
    {
        if self.alloc.is_valid(handle.0) {
            proof {
                lemma_index_in_range(handle.0.index as int, self.pool.count as int, BUF_SIZE as int);
                assert(self.pool.buffer(handle.0.index as int).len() == BUF_SIZE);
            }
            Some(self.pool.buf_mut(handle.0.index as usize))
        } else {
            None
        }
    }

    /// The address of the first byte of the buffer of the current handle
    /// `handle`, a multiple of `ALIGN`.
    pub fn buf_ptr(&self, handle: BufferHandle) -> (a: usize)
        requires
            self.wf(),
            self.valid(handle),
        ensures
            a == self.buffers().address() + handle.0.index * BUF_SIZE,
            a % ALIGN == 0,
    {
        proof {
            self.lemma_buffer_aligned(handle);
        }
        self.pool.buf_ptr(handle.0.index as usize)
    }

    /// Whether `handle` names a buffer with its current generation.
    pub fn is_valid(&self, handle: BufferHandle) -> (b: bool)
        ensures
            b == self.valid(handle),
    {
        self.alloc.is_valid(handle.0)
    }

    /// Gives the buffer that `handle` names back to the pool, when `handle`
    /// is current; returns whether it was.
    pub fn free(&mut self, handle: BufferHandle) -> (freed: bool)
        requires
            old(self).wf(),
        ensures
            freed == old(self).valid(handle),
            old(self).after_free(*final(self), handle),
    {
        self.alloc.free(handle.0)
    }
}

} // verus!

verus! {

/// The largest number of slots an `ObjectPool` has, and the mask that
/// extracts a slot index from an `ObjectHandle`.
pub const OBJECT_POOL_MASK: u32 = 0x00FF_FFFF;

/// The number of slots that `ObjectPool::new(capacity)` hands out:
/// `capacity & OBJECT_POOL_MASK`.
pub open spec fn pool_slots(capacity: u32) -> nat {
    (capacity % 0x0100_0000) as nat
}

/// Names one object of an `ObjectPool`: the pool's identifier in the top
/// byte, the slot index in the next 24 bits and the slot's generation in the
/// low 32 bits.
#[derive(Debug, Clone, Copy, PartialEq, Eq, Structural)]
pub struct ObjectHandle(u64);

/// The 64-bit word that packs a pool identifier and a slot identifier.
pub open spec fn pack_handle(pool_id: u8, gen_id: GenId) -> u64 {
    ((pool_id as u64) << 56u64) | ((gen_id.index as u64) << 32u64) | (gen_id.generation as u64)
}

impl ObjectHandle {
    /// The handle's 64-bit representation.
    pub closed spec fn bits(self) -> u64 {
        self.0
    }

    /// The pool identifier that a handle with these bits carries.
    pub open spec fn spec_pool_id(self) -> u8 {
        (self.bits() >> 56u64) as u8
    }

    /// The slot index that a handle with these bits carries.
    pub open spec fn spec_index(self) -> u32 {
        ((self.bits() >> 32u64) as u32) & OBJECT_POOL_MASK
    }

    /// The generation that a handle with these bits carries.
    pub open spec fn spec_generation(self) -> u32 {
        self.bits() as u32
    }

    /// Packs a pool identifier and a slot identifier into a handle.
    fn new(pool_id: u8, gen_id: GenId) -> (h: Self)
        ensures
            h.bits() == pack_handle(pool_id, gen_id),
            gen_id.index <= OBJECT_POOL_MASK ==> {
                &&& h.spec_pool_id() == pool_id
                &&& h.spec_index() == gen_id.index
                &&& h.spec_generation() == gen_id.generation
            },
    {
        let n = ((pool_id as u64) << 56u64) | ((gen_id.index as u64) << 32u64) | (gen_id.generation as u64);
        let h = ObjectHandle(n);
        proof {
            if gen_id.index <= OBJECT_POOL_MASK {
                Self::lemma_pack_unpack(h, pool_id, gen_id);
            }
        }
        h
    }

    /// The pool identifier.
    pub fn pool_id(self) -> (p: u8)
        ensures
            p == self.spec_pool_id(),
    {
        (self.0 >> 56u64) as u8
    }

    /// The slot index.
    pub fn index(self) -> (i: u32)
        ensures
            i == self.spec_index(),
    {
        ((self.0 >> 32u64) as u32) & OBJECT_POOL_MASK
    }

    /// The slot's generation.
    pub fn generation(self) -> (g: u32)
        ensures
            g == self.spec_generation(),
    {
        self.0 as u32
    }

    /// Unpacking a packed handle gives back its parts, for every slot index
    /// that fits in 24 bits.
    pub proof fn lemma_pack_unpack(h: ObjectHandle, pool_id: u8, gen_id: GenId)
        requires
            h.bits() == pack_handle(pool_id, gen_id),
            gen_id.index <= OBJECT_POOL_MASK,
        ensures
            h.spec_pool_id() == pool_id,
            h.spec_index() == gen_id.index,
            h.spec_generation() == gen_id.generation,
    {
        let p = pool_id;
        let i = gen_id.index;
        let g = gen_id.generation;
        assert((((((p as u64) << 56u64) | ((i as u64) << 32u64) | (g as u64)) >> 56u64) as u8) == p) by (bit_vector)
            requires i <= 0x00FF_FFFFu32;
        assert(((((((p as u64) << 56u64) | ((i as u64) << 32u64) | (g as u64)) >> 32u64) as u32) & 0x00FF_FFFFu32) == i)
            by (bit_vector)
            requires i <= 0x00FF_FFFFu32;
        assert(((((p as u64) << 56u64) | ((i as u64) << 32u64) | (g as u64)) as u32) == g) by (bit_vector);
    }
}

impl ObjectHandle {
    /// The handle with these 64 bits.
    pub fn from_bits(value: u64) -> (h: Self)
        ensures
            h.bits() == value,
    {
        ObjectHandle(value)
    }
}

impl From<u64> for ObjectHandle {
    fn from(value: u64) -> (h: Self)
        ensures
            h.bits() == value,
    {
        ObjectHandle(value)
    }
}

impl vstd::std_specs::convert::FromSpecImpl<u64> for ObjectHandle {
    open spec fn obeys_from_spec() -> bool {
        true
    }

    closed spec fn from_spec(v: u64) -> Self {
        ObjectHandle(v)
    }
}

impl From<ObjectHandle> for u64 {
    fn from(h: ObjectHandle) -> (v: u64)
        ensures
            v == h.bits(),
    {
        h.0
    }
}

impl vstd::std_specs::convert::FromSpecImpl<ObjectHandle> for u64 {
    open spec fn obeys_from_spec() -> bool {
        true
    }

    open spec fn from_spec(h: ObjectHandle) -> u64 {
        h.bits()
    }
}

/// A pool of up to `capacity` objects of type `T`, each reached through a
/// generational `ObjectHandle` that carries the pool identifier `ID`.
pub struct ObjectPool<T, const ID: u8> {
    data: Vec<Option<T>>,
    alloc: GenAlloc,
}

impl<T, const ID: u8> ObjectPool<T, ID> {
    /// The pool's internal consistency.
    pub closed spec fn wf(&self) -> bool {
        &&& self.alloc.wf()
        &&& self.alloc.generations().len() <= self.data@.len()
        &&& self.alloc.generations().len() <= OBJECT_POOL_MASK
        &&& self.data@.len() <= u32::MAX
    }

    /// The object held by each slot.
    pub closed spec fn objects(&self) -> Seq<Option<T>> {
        self.data@
    }

    /// Whether the pool is as `new(capacity)` makes it: `capacity` empty
    /// slots, of which the first `pool_slots(capacity)` are free, at
    /// generation zero, to be handed out from the highest down.
    pub open spec fn is_fresh(&self, capacity: u32) -> bool {
        &&& self.objects() == Seq::new(capacity as nat, |i: int| None::<T>)
        &&& self.allocator().generations() == Seq::new(pool_slots(capacity), |i: int| 0u32)
        &&& self.allocator().free_indices() == Seq::new(pool_slots(capacity),
            |i: int| (pool_slots(capacity) - 1 - i) as u32)
    }

    /// The allocator that tracks which slots are handed out.
    pub closed spec fn allocator(&self) -> GenAlloc {
        self.alloc
    }

    /// The slot identifier that `handle` carries.
    pub open spec fn gen_id_of(handle: ObjectHandle) -> GenId {
        GenId { index: handle.spec_index(), generation: handle.spec_generation() }
    }

    /// Whether `handle` names a slot with its current generation.
    pub open spec fn valid(&self, handle: ObjectHandle) -> bool {
        self.allocator().valid(Self::gen_id_of(handle))
    }

    /// Whether the next `spawn` finds its slot empty, as it insists on.
    pub open spec fn ready_to_spawn(&self) -> bool {
        self.allocator().free_indices().len() > 0 ==>
            self.objects()[self.allocator().free_indices()[0] as int] is None
    }

    /// `new` is what `spawn(object)` leaves of `self` when it returns `r`:
    /// the object in the next free slot and a handle to it, or `None` and
    /// nothing changed.
    pub open spec fn after_spawn(self, new: Self, object: T, r: Option<ObjectHandle>) -> bool {
        &&& new.wf()
        &&& self.allocator().after_allocate(new.allocator(), self.allocator().next_id())
        &&& match self.allocator().next_id() {
            None => r is None && new == self,
            Some(id) => {
                &&& r is Some
                &&& r.unwrap().bits() == pack_handle(ID, id)
                &&& new.objects() == self.objects().update(id.index as int, Some(object))
            },
        }
    }

    /// `new` is what `despawn(handle)` leaves of `self`: for a current
    /// handle, the slot freed and emptied; for a stale one, nothing changed.
    pub open spec fn after_despawn(self, new: Self, handle: ObjectHandle) -> bool {
        &&& new.wf()
        &&& self.allocator().after_free(new.allocator(), Self::gen_id_of(handle))
        &&& self.valid(handle) ==> new.objects() == self.objects().update(handle.spec_index() as int, None)
        &&& !self.valid(handle) ==> new == self
    }

    /// A handle fresh from `spawn` is current and reaches the object stored.
    pub proof fn lemma_spawn_then_get(self, new: Self, object: T, h: ObjectHandle)
        requires
            self.wf(),
            self.after_spawn(new, object, Some(h)),
        ensures
            new.valid(h),
            new.objects()[h.spec_index() as int] == Some(object),
    {
        let id = self.allocator().next_id().unwrap();
        self.alloc.lemma_wf();
        ObjectHandle::lemma_pack_unpack(h, ID, id);
        self.alloc.lemma_allocated_is_valid(new.alloc, id);
    }

    /// Once despawned, a handle is stale and its slot is empty.
    pub proof fn lemma_despawn_then_get(self, new: Self, h: ObjectHandle)
        requires
            self.wf(),
            self.valid(h),
            self.after_despawn(new, h),
        ensures
            !new.valid(h),
            new.objects()[h.spec_index() as int] is None,
    {
        self.alloc.lemma_freed_is_stale(new.alloc, Self::gen_id_of(h));
    }

    /// A consequence of `wf` that callers use.
    pub proof fn lemma_wf(&self)
        requires
            self.wf(),
        ensures
            self.allocator().wf(),
            self.allocator().generations().len() <= self.objects().len(),
            self.allocator().generations().len() <= OBJECT_POOL_MASK,
    {
    }

    /// Creates an empty pool of `capacity` slots, of which the first
    /// `capacity & OBJECT_POOL_MASK` (the low 24 bits of `capacity`) are
    /// handed out, from the highest down.
    pub fn new(capacity: u32) -> (p: Self)
        requires
            pool_slots(capacity) > 0,
            capacity * vstd::layout::size_of::<Option<T>>() <= isize::MAX,
        ensures
            p.wf(),
            p.is_fresh(capacity),
    {
        let mut data: Vec<Option<T>> = Vec::with_capacity(capacity as usize);
        let mut i: u32 = 0;
        while i < capacity
            invariant
                i <= capacity,
                data@ == Seq::new(i as nat, |j: int| None::<T>),
            decreases capacity - i,
        {
            data.push(None);
            i = i + 1;
        }
        assert(capacity & OBJECT_POOL_MASK == capacity % 0x0100_0000) by (bit_vector);
        let alloc = GenAlloc::new(capacity, OBJECT_POOL_MASK);
        ObjectPool { data, alloc }
    }

    /// The number of slots.
    pub fn capacity(&self) -> (c: u32)
        requires
            self.wf(),
        ensures
            c == self.objects().len(),
    {
        self.data.len() as u32
    }

    /// Whether the next `spawn` finds its slot empty, as it insists on.
    pub fn is_ready_to_spawn(&self) -> (b: bool)
        requires
            self.wf(),
        ensures
            b == self.ready_to_spawn(),
    {
        proof {
            self.alloc.lemma_wf();
        }
        match self.alloc.peek_free() {
            Some(idx) => self.data[idx as usize].is_none(),
            None => true,
        }
    }

    /// Stores `object` in the next free slot and returns its handle; `None`
    /// (and the object dropped) when every slot is taken.
    pub fn spawn(&mut self, object: T) -> (r: Option<ObjectHandle>)
        requires
            old(self).wf(),
            old(self).ready_to_spawn(),
        ensures
            old(self).after_spawn(*final(self), object, r),
    {
        proof {
            self.alloc.lemma_wf();
        }
        let id = match self.alloc.allocate() {
            Some(id) => id,
            None => {
                return None;
            },
        };
        self.data.set(id.index as usize, Some(object));
        Some(ObjectHandle::new(ID, id))
    }

    /// The object that `handle` names, when `handle` is current and its slot
    /// holds one.
    pub fn get(&self, handle: ObjectHandle) -> (r: Option<&T>)
        requires
            self.wf(),
        ensures
            self.valid(handle) ==> (r is Some <==> self.objects()[handle.spec_index() as int] is Some),
            self.valid(handle) && r is Some ==> *r.unwrap() == self.objects()[handle.spec_index() as int]->Some_0,
            !self.valid(handle) ==> r is None,
    {
        let index = handle.index();
        if self.alloc.is_valid(GenId { index, generation: handle.generation() }) {
            self.data[index as usize].as_ref()
        } else {
            None
        }
    }

    /// The object that `handle` names, for changing it in place, when
    /// `handle` is current and its slot holds one.
    pub fn get_mut(&mut self, handle: ObjectHandle) -> (r: Option<&mut T>)
        requires
            old(self).wf(),
        ensures
            final(self).wf(),
            final(self).allocator() == old(self).allocator(),
            old(self).valid(handle) ==> {
                let idx = handle.spec_index() as int;
                &&& (r is Some <==> old(self).objects()[idx] is Some)
                &&& r is Some ==> *r.unwrap() == old(self).objects()[idx]->Some_0
                    && final(self).objects() == old(self).objects().update(idx, Some(*final(r.unwrap())))
                &&& r is None ==> *final(self) == *old(self)
            },
            !old(self).valid(handle) ==> r is None && *final(self) == *old(self),
    {
        let index = handle.index();
        if self.alloc.is_valid(GenId { index, generation: handle.generation() }) && self.data[index as usize].is_some() {
            self.data[index as usize].as_mut()
        } else {
            None
        }
    }

    /// Removes the object that `handle` names and frees its slot, when
    /// `handle` is current; returns whether it was.
    pub fn despawn(&mut self, handle: ObjectHandle) -> (freed: bool)
        requires
            old(self).wf(),
        ensures
            freed == old(self).valid(handle),
            old(self).after_despawn(*final(self), handle),
    {
        let index = handle.index();
        if self.alloc.free(GenId { index, generation: handle.generation() }) {
            self.data.set(index as usize, None);
            true
        } else {
            false
        }
    }
}

} // verus!
