//! Fixed-capacity ring buffer used for scrollback-like history.
//!
//! The emulator needs bounded memory while still preserving recently scrolled
//! rows. A circular buffer gives O(1) append and indexed reads without moving
//! existing elements.

use vstd::prelude::*;

verus! {

/// The contents of a ring buffer of capacity `cap` holding `s` after one more
/// push of `x`: the newest item is appended and, when the buffer was full, the
/// oldest one is dropped.
pub open spec fn pushed<T>(s: Seq<T>, cap: nat, x: T) -> Seq<T> {
    if s.len() < cap {
        s.push(x)
    } else {
        s.drop_first().push(x)
    }
}

/// The contents after pushing `items` in order into a buffer of capacity
/// `cap` holding `s`.
pub open spec fn pushed_all<T>(s: Seq<T>, cap: nat, items: Seq<T>) -> Seq<T>
    decreases items.len(),
{
    if items.len() == 0 {
        s
    } else {
        pushed(pushed_all(s, cap, items.drop_last()), cap, items.last())
    }
}

/// Law: a buffer of capacity `cap` that starts empty holds, after any number
/// of pushes, exactly the newest `min(n, cap)` items pushed, oldest first.
pub proof fn lemma_keeps_newest<T>(cap: nat, items: Seq<T>)
    requires
        cap > 0,
    ensures
        pushed_all(Seq::<T>::empty(), cap, items) == items.subrange(
            if items.len() > cap { items.len() - cap } else { 0 },
            items.len() as int,
        ),
    decreases items.len(),
{
    if items.len() > 0 {
        let n = items.len() as int;
        let prev = items.drop_last();
        lemma_keeps_newest(cap, prev);
        let lo = if prev.len() > cap { prev.len() - cap } else { 0 };
        let s = prev.subrange(lo, prev.len() as int);
        let lo2 = if n > cap { n - cap } else { 0 };
        if s.len() < cap {
            assert(s.push(items.last()) =~= items.subrange(lo2, n));
        } else {
            assert(s.drop_first().push(items.last()) =~= items.subrange(lo2, n));
        }
    } else {
        assert(items.subrange(0, 0) =~= Seq::<T>::empty());
    }
}

/// A fixed-capacity circular buffer. Generic over T so it
/// can store any kind of row (or anything else, really).
pub struct RingBuffer<T> {
    buf: Vec<Option<T>>,
    /// Index where the next push will write.
    head: usize,
    /// Number of valid items currently stored (0..=capacity).
    len: usize,
    /// Maximum number of items the buffer can hold.
    capacity: usize,
}

impl<T> RingBuffer<T> {
    /// Physical slot of the `i`-th oldest item.
    pub closed spec fn slot(&self, i: int) -> int {
        let p = self.head - self.len + i;
        if p < 0 { p + self.capacity } else { p }
    }

    /// The buffer's internal invariant.
    pub closed spec fn wf(&self) -> bool {
        &&& self.capacity > 0
        &&& self.buf@.len() == self.capacity
        &&& self.head < self.capacity
        &&& self.len <= self.capacity
        &&& forall|i: int| 0 <= i < self.len ==> (#[trigger] self.buf@[self.slot(i)]) is Some
    }

    /// Maximum number of items, as a mathematical value.
    pub closed spec fn cap(&self) -> nat {
        self.capacity as nat
    }

    /// Law: a buffer never holds more items than its capacity, and its
    /// capacity is positive.
    pub proof fn lemma_bounded(&self)
        requires
            self.wf(),
        ensures
            0 < self.cap(),
            self@.len() <= self.cap(),
    {
    }
}

impl<T> View for RingBuffer<T> {
    type V = Seq<T>;

    /// The stored items, oldest first.
    closed spec fn view(&self) -> Seq<T> {
        Seq::new(self.len as nat, |i: int| self.buf@[self.slot(i)]->Some_0)
    }
}

impl<T> RingBuffer<T> {
    /// Create a new ring buffer with the given fixed capacity.
    ///
    /// A zero capacity is refused: a zero-capacity buffer cannot hold anything.
    pub fn new(capacity: usize) -> (r: Self)
        requires
            capacity > 0,
        ensures
            r.wf(),
            r@ == Seq::<T>::empty(),
            r.cap() == capacity,
    {
        let mut buf: Vec<Option<T>> = Vec::with_capacity(capacity);
        let mut k: usize = 0;
        while k < capacity
            invariant
                k <= capacity,
                buf@.len() == k,
            decreases capacity - k,
        {
            buf.push(None);
            k = k + 1;
        }
        let r = RingBuffer { buf, head: 0, len: 0, capacity };
        assert(r@ =~= Seq::<T>::empty());
        r
    }

    /// Push a new item. If the buffer is full, the oldest item is overwritten.
    pub fn push(&mut self, item: T)
        requires
            old(self).wf(),
        ensures
            final(self).wf(),
            final(self).cap() == old(self).cap(),
            final(self)@ == pushed(old(self)@, old(self).cap(), item),
    {
        let ghost old_view = self@;
        let ghost old_self = *self;
        let h = self.head;
        self.buf.set(h, Some(item));
        if self.head + 1 == self.capacity {
            self.head = 0;
        } else {
            self.head = self.head + 1;
        }
        if self.len < self.capacity {
            self.len = self.len + 1;
        }
        proof {
            let n = old_self.len as int;
            let cap = old_self.capacity as int;
            assert forall|i: int| 0 <= i < self.len implies (#[trigger] self.buf@[self.slot(i)]) is Some by {
                if n < cap {
                    if i < n {
                        assert(self.slot(i) == old_self.slot(i));
                    }
                } else {
                    assert(self.slot(i) == old_self.slot(i + 1) || i == n - 1);
                    if i < n - 1 {
                        assert(self.slot(i) == old_self.slot(i + 1));
                    }
                }
            }
            let expected = pushed(old_view, old_self.cap(), item);
            assert forall|i: int| 0 <= i < self.len implies self@[i] == expected[i] by {
                if n < cap {
                    if i < n {
                        assert(self.slot(i) == old_self.slot(i));
                    }
                } else {
                    if i < n - 1 {
                        assert(self.slot(i) == old_self.slot(i + 1));
                    }
                }
            }
            assert(self@ =~= expected);
        }
    }

    /// Number of items currently stored.
    pub fn len(&self) -> (n: usize)
        requires
            self.wf(),
        ensures
            n == self@.len(),
    {
        self.len
    }

    /// Whether the buffer holds zero items.
    pub fn is_empty(&self) -> (b: bool)
        requires
            self.wf(),
        ensures
            b == (self@.len() == 0),
    {
        self.len == 0
    }

    /// Maximum number of items this buffer can hold.
    pub fn capacity(&self) -> (c: usize)
        requires
            self.wf(),
        ensures
            c == self.cap(),
    {
        self.capacity
    }

    /// Reset the buffer to an empty state without reallocating.
    pub fn clear(&mut self)
        requires
            old(self).wf(),
        ensures
            final(self).wf(),
            final(self).cap() == old(self).cap(),
            final(self)@ == Seq::<T>::empty(),
    {
        let mut k: usize = 0;
        while k < self.capacity
            invariant
                k <= self.capacity,
                self.capacity == old(self).capacity,
                self.capacity > 0,
                self.buf@.len() == self.capacity,
                self.head < self.capacity,
                self.len <= self.capacity,
            decreases self.capacity - k,
        {
            self.buf.set(k, None);
            k = k + 1;
        }
        self.head = 0;
        self.len = 0;
        assert(self@ =~= Seq::<T>::empty());
    }

    /// Get the i-th oldest item (0 = oldest, len-1 = newest).
    /// Returns None if the index is out of range.
    pub fn get(&self, i: usize) -> (r: Option<&T>)
        requires
            self.wf(),
        ensures
            i < self@.len() ==> r == Some(&self@[i as int]),
            i >= self@.len() ==> r is None,
    {
        if i >= self.len {
            return None;
        }
        // Oldest item lives at (head - len) mod capacity.
        let start = if self.head >= self.len {
            self.head - self.len
        } else {
            self.head + (self.capacity - self.len)
        };
        let idx = if i < self.capacity - start {
            start + i
        } else {
            i - (self.capacity - start)
        };
        assert(idx == self.slot(i as int));
        assert(self.buf@[self.slot(i as int)] is Some);
        self.buf[idx].as_ref()
    }

    /// Everything `iter` yields until it is exhausted, collected.
    ///
    /// Law: that is exactly the stored items, oldest to newest, `len()` of
    /// them.
    pub fn items(&self) -> (v: Vec<&T>)
        requires
            self.wf(),
        ensures
            v@.len() == self@.len(),
            forall|i: int| 0 <= i < v@.len() ==> *v@[i] == self@[i],
    {
        let mut v: Vec<&T> = Vec::new();
        let mut it = self.iter();
        loop
            invariant
                it.ring() == self,
                self.wf(),
                it.pos() <= self@.len(),
                v@.len() == it.pos(),
                forall|i: int| 0 <= i < v@.len() ==> *v@[i] == self@[i],
            ensures
                v@.len() == self@.len(),
                forall|i: int| 0 <= i < v@.len() ==> *v@[i] == self@[i],
            decreases self@.len() - it.pos(),
        {
            match it.next() {
                Some(x) => v.push(x),
                None => break,
            }
        }
        v
    }

    /// Iterate from oldest to newest.
    pub fn iter(&self) -> (it: RingIter<'_, T>)
        requires
            self.wf(),
        ensures
            it.ring() == self,
            it.pos() == 0,
    {
        RingIter { ring: self, pos: 0 }
    }
}

/// Cursor over the ring buffer in oldest-to-newest order.
pub struct RingIter<'a, T> {
    ring: &'a RingBuffer<T>,
    pos: usize,
}

impl<'a, T> RingIter<'a, T> {
    /// The buffer being walked.
    pub closed spec fn ring(&self) -> &'a RingBuffer<T> {
        self.ring
    }

    /// How many items have been handed out so far.
    pub closed spec fn pos(&self) -> nat {
        self.pos as nat
    }

    /// The next item, oldest first; `None` once every item has been seen.
    pub fn next(&mut self) -> (r: Option<&'a T>)
        requires
            old(self).ring().wf(),
        ensures
            final(self).ring() == old(self).ring(),
            old(self).pos() < old(self).ring()@.len() ==> {
                &&& r == Some(&old(self).ring()@[old(self).pos() as int])
                &&& final(self).pos() == old(self).pos() + 1
            },
            old(self).pos() >= old(self).ring()@.len() ==> {
                &&& r is None
                &&& final(self).pos() == old(self).pos()
            },
    {
        let item = self.ring.get(self.pos);
        match item {
            Some(x) => {
                self.pos = self.pos + 1;
                Some(x)
            },
            None => None,
        }
    }
}

} // verus!
