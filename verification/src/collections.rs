use vstd::prelude::*;

use crate::error::{HoarderError, Result};

verus! {

/// A fixed-size, heap-allocated array whose length is set at creation.
pub struct Array<T> {
    data: Vec<T>,
}

impl<T> View for Array<T> {
    type V = Seq<T>;

    closed spec fn view(&self) -> Seq<T> {
        self.data@
    }
}

impl<T: Copy> Array<T> {
    /// Creates an array of `size` copies of `init`.
    pub fn new(init: T, size: usize) -> (arr: Self)
        requires
            0 < size < isize::MAX,
            size * vstd::layout::size_of::<T>() <= isize::MAX,
        ensures
            arr@ == Seq::new(size as nat, |i: int| init),
    {
        let mut data: Vec<T> = Vec::with_capacity(size);
        let mut i: usize = 0;
        while i < size
            invariant
                i <= size,
                data@ == Seq::new(i as nat, |j: int| init),
            decreases size - i,
        {
            data.push(init);
            i = i + 1;
        }
        Array { data }
    }
}

impl<T> Array<T> {
    /// Creates an array of length `size` holding the first `size` of `items`,
    /// in order.
    pub fn from_fixed_iter(size: usize, items: Vec<T>) -> (arr: Self)
        requires
            size < isize::MAX,
            size * vstd::layout::size_of::<T>() <= isize::MAX,
            items@.len() >= size,
        ensures
            arr@ == items@.subrange(0, size as int),
    {
        let mut data = items;
        data.truncate(size);
        Array { data }
    }

    /// The number of elements.
    pub fn len(&self) -> (n: usize)
        ensures
            n == self@.len(),
    {
        self.data.len()
    }

    /// The element at `index`.
    pub fn get(&self, index: usize) -> (r: &T)
        requires
            index < self@.len(),
        ensures
            *r == self@[index as int],
    {
        &self.data[index]
    }

    /// Replaces the element at `index` with `value`.
    pub fn set(&mut self, index: usize, value: T)
        requires
            index < old(self)@.len(),
        ensures
            final(self)@ == old(self)@.update(index as int, value),
    {
        self.data.set(index, value);
    }

    /// All elements, as a slice.
    pub fn as_slice(&self) -> (s: &[T])
        ensures
            s@ == self@,
    {
        self.data.as_slice()
    }
}

/// A bounded first-in first-out queue over a fixed ring of slots.
pub struct RingBuffer<T> {
    slots: Vec<Option<T>>,
    write_idx: usize,
    read_idx: usize,
    size: usize,
    len: usize,
}

impl<T> View for RingBuffer<T> {
    type V = Seq<T>;

    /// The queued elements, oldest first.
    closed spec fn view(&self) -> Seq<T> {
        Seq::new(self.len as nat, |i: int| self.slots@[self.slot_of(i)]->Some_0)
    }
}

impl<T> RingBuffer<T> {
    /// The slot that holds the `i`-th oldest element.
    closed spec fn slot_of(&self, i: int) -> int {
        (self.read_idx + i) % (self.size as int)
    }

    /// The ring's internal consistency: `len` live slots starting at
    /// `read_idx`, wrapping around, with `write_idx` just past them.
    pub closed spec fn wf(&self) -> bool {
        &&& self.slots@.len() == self.size
        &&& 0 < self.size < isize::MAX
        &&& self.read_idx < self.size
        &&& self.len <= self.size
        &&& self.write_idx == (self.read_idx + self.len) % (self.size as int)
        &&& forall|i: int| 0 <= i < self.len ==> (#[trigger] self.slots@[self.slot_of(i)]) is Some
    }

    /// The number of slots.
    pub closed spec fn spec_capacity(&self) -> nat {
        self.size as nat
    }

    /// A buffer never holds more elements than it has slots.
    pub proof fn lemma_len_bound(&self)
        requires
            self.wf(),
        ensures
            self@.len() <= self.spec_capacity(),
            self.spec_capacity() > 0,
    {
    }

    /// `new` is what a `push(x)` leaves of `self`: `x` at the back when there
    /// was room, else nothing changed.
    pub open spec fn pushed(self, new: Self, x: T) -> bool {
        &&& new.wf()
        &&& new.spec_capacity() == self.spec_capacity()
        &&& self@.len() < self.spec_capacity() ==> new@ == self@.push(x)
        &&& self@.len() >= self.spec_capacity() ==> new@ == self@
    }

    /// `new` is what a `pop()` leaves of `self`: the oldest element gone, if
    /// there was one.
    pub open spec fn popped(self, new: Self) -> bool {
        &&& new.wf()
        &&& new.spec_capacity() == self.spec_capacity()
        &&& self@.len() > 0 ==> new@ == self@.drop_first()
        &&& self@.len() == 0 ==> new@ == self@
    }

    /// `new` is what the operation `op` leaves of `self`: a push of `x` for
    /// `Some(x)`, a pop for `None`.
    pub open spec fn stepped(self, new: Self, op: Option<T>) -> bool {
        match op {
            Some(x) => self.pushed(new, x),
            None => self.popped(new),
        }
    }

    /// Creates an empty buffer with room for `size` elements.
    pub fn new(size: usize) -> (rb: Self)
        requires
            0 < size < isize::MAX,
            size * vstd::layout::size_of::<T>() <= isize::MAX,
        ensures
            rb.wf(),
            rb@ == Seq::<T>::empty(),
            rb.spec_capacity() == size,
    {
        let mut slots: Vec<Option<T>> = Vec::with_capacity(size);
        let mut i: usize = 0;
        while i < size
            invariant
                i <= size,
                slots@.len() == i,
            decreases size - i,
        {
            slots.push(None);
            i = i + 1;
        }
        let rb = RingBuffer { slots, write_idx: 0, read_idx: 0, size, len: 0 };
        proof {
            lemma_small_mod(0, size as int);
        }
        assert(rb@ =~= Seq::<T>::empty());
        rb
    }

    /// Creates a buffer of capacity `size` filled with the first `size` of
    /// `items`, in order.
    pub fn from_fixed_iter(size: usize, items: Vec<T>) -> (rb: Self)
        requires
            0 < size < isize::MAX,
            size * vstd::layout::size_of::<T>() <= isize::MAX,
            items@.len() >= size,
        ensures
            rb.wf(),
            rb@ == items@.subrange(0, size as int),
            rb.spec_capacity() == size,
    {
        let mut buffer = Self::new(size);
        let mut rest = items;
        rest.truncate(size);
        let ghost taken = rest@;
        let mut reversed: Vec<T> = Vec::new();
        while rest.len() > 0
            invariant
                taken.len() == size,
                rest@.len() + reversed@.len() == size,
                rest@ == taken.subrange(0, rest@.len() as int),
                forall|j: int| 0 <= j < reversed@.len() ==> #[trigger] reversed@[j] == taken[size - 1 - j],
            decreases rest@.len(),
        {
            let x = rest.pop().unwrap();
            reversed.push(x);
        }
        while reversed.len() > 0
            invariant
                taken.len() == size,
                buffer.wf(),
                buffer.spec_capacity() == size,
                buffer@.len() + reversed@.len() == size,
                buffer@ == taken.subrange(0, buffer@.len() as int),
                forall|j: int| 0 <= j < reversed@.len() ==> #[trigger] reversed@[j] == taken[size - 1 - j],
            decreases reversed@.len(),
        {
            let x = reversed.pop().unwrap();
            let r = buffer.push(x);
            assert(buffer@ =~= taken.subrange(0, buffer@.len() as int));
        }
        assert(taken =~= items@.subrange(0, size as int));
        buffer
    }

    /// Appends `data` at the back; fails with `PushError`, leaving the buffer
    /// unchanged, when it is full.
    pub fn push(&mut self, data: T) -> (r: Result<()>)
        requires
            old(self).wf(),
        ensures
            final(self).wf(),
            final(self).spec_capacity() == old(self).spec_capacity(),
            old(self)@.len() < old(self).spec_capacity() ==> r is Ok && final(self)@ == old(self)@.push(data),
            old(self)@.len() == old(self).spec_capacity() ==> (r matches Err(HoarderError::PushError))
                && final(self)@ == old(self)@,
            old(self).pushed(*final(self), data),
    {
        proof {
            self.lemma_len_bound();
        }
        if !self.is_full() {
            let ghost before = *self;
            let w = self.write_idx;
            self.slots.set(w, Some(data));
            self.write_idx = (self.write_idx + 1) % self.size;
            self.len = self.len + 1;
            proof {
                assert forall|i: int| 0 <= i < self.len implies (#[trigger] self.slots@[self.slot_of(i)]) is Some by {
                    if i < before.len {
                        assert(self.slot_of(i) == before.slot_of(i));
                        lemma_slot_distinct(before.read_idx as int, before.size as int, i, before.len as int);
                    }
                }
                assert forall|i: int| 0 <= i < before.len implies self.slots@[self.slot_of(i)] == before.slots@[before.slot_of(i)] by {
                    lemma_slot_distinct(before.read_idx as int, before.size as int, i, before.len as int);
                }
                lemma_mod_succ(before.read_idx as int, before.len as int, before.size as int);
                assert(self@ =~= before@.push(data));
            }
            Ok(())
        } else {
            Err(HoarderError::PushError)
        }
    }

    /// Removes and returns the oldest element, or `None` when empty.
    pub fn pop(&mut self) -> (r: Option<T>)
        requires
            old(self).wf(),
        ensures
            final(self).wf(),
            final(self).spec_capacity() == old(self).spec_capacity(),
            old(self)@.len() > 0 ==> r == Some(old(self)@[0]) && final(self)@ == old(self)@.drop_first(),
            old(self)@.len() == 0 ==> r is None && *final(self) == *old(self),
            old(self).popped(*final(self)),
    {
        if !self.is_empty() {
            let ghost before = *self;
            let ri = self.read_idx;
            proof {
                lemma_small_mod(ri as int, before.size as int);
            }
            assert(before.slot_of(0) == ri as int);
            let item = self.slots[ri].take();
            self.read_idx = (self.read_idx + 1) % self.size;
            self.len = self.len - 1;
            proof {
                assert forall|i: int| 0 <= i < self.len implies self.slot_of(i) == before.slot_of(i + 1) by {
                    lemma_mod_shift(before.read_idx as int, i, before.size as int);
                }
                assert forall|i: int| 0 <= i < self.len implies (#[trigger] self.slots@[self.slot_of(i)]) is Some
                    && self.slots@[self.slot_of(i)] == before.slots@[before.slot_of(i + 1)] by {
                    assert(self.slot_of(i) == before.slot_of(i + 1));
                    assert(before.slots@[before.slot_of(i + 1)] is Some);
                    lemma_slot_distinct(before.read_idx as int, before.size as int, 0, i + 1);
                }
                lemma_mod_shift(before.read_idx as int, self.len as int, before.size as int);
                assert(self@ =~= before@.drop_first());
            }
            item
        } else {
            None
        }
    }

    /// The oldest element, left in place; `None` when empty.
    pub fn peek(&self) -> (r: Option<T>)
        where T: Copy
        requires
            self.wf(),
        ensures
            self@.len() > 0 ==> r == Some(self@[0]),
            self@.len() == 0 ==> r is None,
    {
        if self.len == 0 {
            None
        } else {
            proof {
                lemma_small_mod(self.read_idx as int, self.size as int);
            }
            assert(self.slot_of(0) == self.read_idx as int);
            self.slots[self.read_idx]
        }
    }

    /// Whether every slot holds an element.
    pub fn is_full(&self) -> (b: bool)
        requires
            self.wf(),
        ensures
            b == (self@.len() == self.spec_capacity()),
    {
        self.len == self.size
    }

    /// Whether the buffer holds no element.
    pub fn is_empty(&self) -> (b: bool)
        requires
            self.wf(),
        ensures
            b == (self@.len() == 0),
    {
        self.len == 0
    }

    /// The number of queued elements.
    pub fn len(&self) -> (n: usize)
        requires
            self.wf(),
        ensures
            n == self@.len(),
    {
        self.len
    }

    /// The number of slots.
    pub fn capacity(&self) -> (n: usize)
        ensures
            n == self.spec_capacity(),
    {
        self.size
    }
}

/// How many of the first `k` operations of `ops` on the states `states` are
/// pushes that found room; an operation is a push of `x` when it is
/// `Some(x)`, and a pop when it is `None`.
pub open spec fn successful_pushes<T>(states: Seq<RingBuffer<T>>, ops: Seq<Option<T>>, k: int) -> int
    decreases k,
{
    if k <= 0 {
        0
    } else {
        successful_pushes(states, ops, k - 1) + if ops[k - 1] is Some && states[k - 1]@.len() < states[k - 1].spec_capacity() {
            1int
        } else {
            0int
        }
    }
}

/// How many of the first `k` operations of `ops` on the states `states` are
/// pops that found an element.
pub open spec fn successful_pops<T>(states: Seq<RingBuffer<T>>, ops: Seq<Option<T>>, k: int) -> int
    decreases k,
{
    if k <= 0 {
        0
    } else {
        successful_pops(states, ops, k - 1) + if ops[k - 1] is None && states[k - 1]@.len() > 0 { 1int } else { 0int }
    }
}

/// Over any history of pushes and pops, the capacity stays, the length stays
/// between zero and the capacity, and it is the starting length plus the
/// pushes that found room minus the pops that found an element.
pub proof fn lemma_len_counts<T>(states: Seq<RingBuffer<T>>, ops: Seq<Option<T>>, k: int)
    requires
        states.len() == ops.len() + 1,
        states[0].wf(),
        forall|i: int| 0 <= i < ops.len() ==> #[trigger] states[i].stepped(states[i + 1], ops[i]),
        0 <= k <= ops.len(),
    ensures
        states[k].wf(),
        states[k].spec_capacity() == states[0].spec_capacity(),
        states[k]@.len() <= states[k].spec_capacity(),
        states[k]@.len() == states[0]@.len() + successful_pushes(states, ops, k) - successful_pops(states, ops, k),
    decreases k,
{
    if k == 0 {
        states[0].lemma_len_bound();
    } else {
        lemma_len_counts(states, ops, k - 1);
        let i = k - 1;
        states[i].lemma_len_bound();
        assert(states[i].stepped(states[i + 1], ops[i]));
        states[k].lemma_len_bound();
    }
}

/// Distinct positions of a window shorter than the ring map to distinct slots.
proof fn lemma_slot_distinct(r: int, size: int, i: int, j: int)
    requires
        0 <= r < size,
        0 <= i < j < size,
    ensures
        (r + i) % size != (r + j) % size,
{
    assert((r + i) % size != (r + j) % size) by (nonlinear_arith)
        requires 0 <= r < size, 0 <= i < j < size;
}

/// A position inside the ring is its own slot.
proof fn lemma_small_mod(x: int, size: int)
    requires
        0 <= x < size,
    ensures
        x % size == x,
{
    assert(x % size == x) by (nonlinear_arith)
        requires 0 <= x < size;
}

/// Advancing a position by one in the ring.
proof fn lemma_mod_succ(r: int, n: int, size: int)
    requires
        0 <= r < size,
        0 <= n < size,
    ensures
        ((r + n) % size + 1) % size == (r + n + 1) % size,
{
    assert(((r + n) % size + 1) % size == (r + n + 1) % size) by (nonlinear_arith)
        requires 0 <= r < size, 0 <= n < size;
}

/// Moving the read position forward by one.
proof fn lemma_mod_shift(r: int, i: int, size: int)
    requires
        0 <= r < size,
        0 <= i < size,
    ensures
        ((r + 1) % size + i) % size == (r + i + 1) % size,
{
    assert(((r + 1) % size + i) % size == (r + i + 1) % size) by (nonlinear_arith)
        requires 0 <= r < size, 0 <= i < size;
}

} // verus!
