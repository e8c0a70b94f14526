//! Fixed-capacity circular store with FIFO eviction: once full, a push
//! overwrites the oldest item, and the remaining items keep their order.

use vstd::prelude::*;

verus! {

/// One push applied to the abstract contents of a buffer of capacity `cap`:
/// the new item goes to the back, and the oldest item leaves when the buffer
/// is already full.
pub open spec fn ring_step<T>(cap: nat, s: Seq<T>, x: T) -> Seq<T> {
    if s.len() < cap {
        s.push(x)
    } else {
        s.subrange(1, s.len() as int).push(x)
    }
}

/// The abstract contents after pushing every item of `xs`, in order, into an
/// initially empty buffer of capacity `cap`.
pub open spec fn ring_run<T>(cap: nat, xs: Seq<T>) -> Seq<T>
    decreases xs.len(),
{
    if xs.len() == 0 {
        Seq::empty()
    } else {
        ring_step(cap, ring_run(cap, xs.drop_last()), xs.last())
    }
}

/// Law: pushing the items of `xs`, in order, into an initially empty buffer
/// of capacity `cap` leaves exactly the last `min(xs.len(), cap)` pushed
/// items, in their original relative order. In particular, after at least
/// `cap` pushes the buffer holds exactly the last `cap` pushed items.
pub proof fn lemma_ring_run_window<T>(cap: nat, xs: Seq<T>)
    requires
        cap >= 1,
    ensures
        ring_run(cap, xs) == if xs.len() <= cap {
            xs
        } else {
            xs.subrange(xs.len() - cap, xs.len() as int)
        },
        ring_run(cap, xs).len() == vstd::math::min(xs.len() as int, cap as int),
    decreases xs.len(),
{
    if xs.len() == 0 {
        assert(ring_run(cap, xs) =~= xs);
    } else {
        lemma_ring_run_window(cap, xs.drop_last());
        if xs.len() <= cap {
            assert(ring_run(cap, xs) =~= xs);
        } else {
            assert(ring_run(cap, xs) =~= xs.subrange(xs.len() - cap, xs.len() as int));
        }
    }
}

/// Fixed-capacity circular store. The capacity is fixed at construction and
/// the backing storage is never reallocated once it reaches that capacity:
/// later pushes overwrite slots in place.
pub struct RingBuffer<T> {
    storage: Vec<T>,
    start: usize,
    capacity: usize,
}

impl<T> View for RingBuffer<T> {
    type V = Seq<T>;

    /// The items in insertion order, oldest first.
    closed spec fn view(&self) -> Seq<T> {
        if self.storage.len() < self.capacity {
            self.storage@
        } else {
            self.storage@.subrange(self.start as int, self.storage.len() as int)
                + self.storage@.subrange(0, self.start as int)
        }
    }
}

impl<T> RingBuffer<T> {
    pub closed spec fn cap(&self) -> nat {
        self.capacity as nat
    }

    pub closed spec fn wf(&self) -> bool {
        &&& self.capacity > 0
        &&& self.storage.len() <= self.capacity
        &&& (self.storage.len() < self.capacity ==> self.start == 0)
        &&& self.start < self.capacity
    }

    pub fn new(capacity: usize) -> (r: Self)
        requires
            capacity >= 1,
        ensures
            r.wf(),
            r.cap() == capacity,
            r@ == Seq::<T>::empty(),
    {
        RingBuffer { storage: Vec::with_capacity(capacity), start: 0, capacity }
    }

    pub fn len(&self) -> (r: usize)
        requires
            self.wf(),
        ensures
            r == self@.len(),
    {
        self.storage.len()
    }

    pub fn capacity(&self) -> (r: usize)
        requires
            self.wf(),
        ensures
            r == self.cap(),
    {
        self.capacity
    }

    /// Append `item`; when already at capacity, the oldest item is dropped.
    pub fn push(&mut self, item: T)
        requires
            old(self).wf(),
        ensures
            final(self).wf(),
            final(self).cap() == old(self).cap(),
            final(self)@ == ring_step(old(self).cap(), old(self)@, item),
            final(self)@.len() == if old(self)@.len() < old(self).cap() {
                (old(self)@.len() + 1) as int
            } else {
                old(self).cap() as int
            },
    {
        if self.storage.len() < self.capacity {
            self.storage.push(item);
            assert(final(self)@ =~= ring_step(old(self).cap(), old(self)@, item));
        } else {
            self.storage.set(self.start, item);
            if self.start + 1 == self.capacity {
                self.start = 0;
            } else {
                self.start = self.start + 1;
            }
            assert(final(self)@ =~= ring_step(old(self).cap(), old(self)@, item));
        }
    }

    /// Read the item `i` places from the oldest one.
    pub fn get(&self, i: usize) -> (r: &T)
        requires
            self.wf(),
            i < self@.len(),
        ensures
            *r == self@[i as int],
    {
        if self.storage.len() < self.capacity {
            &self.storage[i]
        } else {
            if i < self.capacity - self.start {
                &self.storage[self.start + i]
            } else {
                &self.storage[i - (self.capacity - self.start)]
            }
        }
    }
}

impl<T: Copy> RingBuffer<T> {
    /// The items in insertion order, oldest first, without mutating state.
    pub fn snapshot(&self) -> (r: Vec<T>)
        requires
            self.wf(),
        ensures
            r@ == self@,
    {
        let mut out: Vec<T> = Vec::new();
        let n = self.len();
        for i in 0..n
            invariant
                self.wf(),
                n == self@.len(),
                out@ =~= self@.subrange(0, i as int),
        {
            out.push(*self.get(i));
        }
        assert(out@ =~= self@);
        out
    }
}

} // verus!
