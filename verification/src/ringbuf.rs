//! A fixed-capacity circular buffer. A buffer with `N` physical slots stores
//! at most `N - 1` elements, so that an empty buffer (`head == tail`) is
//! distinguishable from a full one.

use vstd::prelude::*;

verus! {

/// Circular buffer over `N` physical slots, holding up to `N - 1` elements.
pub struct RingBuf<T, const N: usize> {
    buf: Vec<Option<T>>,
    /// Slot the next pushed element is written to.
    head: usize,
    /// Slot the next popped element is read from.
    tail: usize,
}

impl<T, const N: usize> View for RingBuf<T, N> {
    type V = Seq<T>;

    /// The stored elements, oldest first.
    closed spec fn view(&self) -> Seq<T> {
        Seq::new(self.len_spec() as nat, |i: int| self.buf[self.slot(i)]->0)
    }
}

impl<T, const N: usize> RingBuf<T, N> {
    /// Number of stored elements.
    closed spec fn len_spec(&self) -> int {
        if self.head >= self.tail {
            self.head - self.tail
        } else {
            N - self.tail + self.head
        }
    }

    /// Physical slot of the `i`-th stored element.
    closed spec fn slot(&self, i: int) -> int {
        if self.tail + i < N {
            self.tail + i
        } else {
            self.tail + i - N
        }
    }

    /// Well-formedness: the slot vector has its fixed size, the two indices
    /// point at slots, and every occupied slot holds an element. `new`
    /// establishes it and every method preserves it.
    pub closed spec fn wf(&self) -> bool {
        &&& N > 1
        &&& self.buf.len() == N
        &&& self.head < N
        &&& self.tail < N
        &&& forall|i: int| 0 <= i < self.len_spec() ==> (#[trigger] self.buf[self.slot(i)]) is Some
    }

    /// A well-formed buffer never holds more elements than its usable
    /// capacity.
    pub proof fn lemma_len_bounded(&self)
        requires
            self.wf(),
        ensures
            self@.len() <= N - 1,
            N > 1,
    {
    }

    /// Create an empty buffer. `N` must leave room for the one spare slot.
    pub fn new() -> (r: Self)
        requires
            N > 1,
        ensures
            r.wf(),
            r@ == Seq::<T>::empty(),
    {
        let mut buf: Vec<Option<T>> = Vec::new();
        let mut i: usize = 0;
        while i < N
            invariant
                i <= N,
                buf.len() == i,
            decreases N - i,
        {
            buf.push(None);
            i += 1;
        }
        let r = RingBuf { buf, head: 0, tail: 0 };
        assert(r@ =~= Seq::<T>::empty());
        r
    }

    /// Usable capacity: one less than the number of physical slots.
    pub fn capacity(&self) -> (r: usize)
        requires
            self.wf(),
        ensures
            r == N - 1,
    {
        N - 1
    }

    /// Number of stored elements; never above the usable capacity.
    pub fn len(&self) -> (r: usize)
        requires
            self.wf(),
        ensures
            r == self@.len(),
            r <= N - 1,
    {
        let h = self.head;
        let t = self.tail;
        if h >= t {
            h - t
        } else {
            N - t + h
        }
    }

    /// Whether no element is stored.
    pub fn is_empty(&self) -> (r: bool)
        requires
            self.wf(),
        ensures
            r == (self@.len() == 0),
    {
        self.tail == self.head
    }

    /// Whether the usable capacity is reached.
    pub fn is_full(&self) -> (r: bool)
        requires
            self.wf(),
        ensures
            r == (self@.len() == N - 1),
    {
        let next = if self.head + 1 == N {
            0
        } else {
            self.head + 1
        };
        next == self.tail
    }

    /// Drop all stored elements.
    pub fn clear(&mut self)
        requires
            old(self).wf(),
        ensures
            final(self).wf(),
            final(self)@ == Seq::<T>::empty(),
    {
        self.tail = self.head;
        assert(self@ =~= Seq::<T>::empty());
    }

    /// The oldest stored element, if any.
    pub fn front(&self) -> (r: Option<&T>)
        requires
            self.wf(),
        ensures
            match r {
                Some(v) => self@.len() > 0 && *v == self@[0],
                None => self@.len() == 0,
            },
    {
        if self.tail == self.head {
            None
        } else {
            assert(self.slot(0) == self.tail);
            self.buf[self.tail].as_ref()
        }
    }

    /// The newest stored element, if any.
    pub fn tail(&self) -> (r: Option<&T>)
        requires
            self.wf(),
        ensures
            match r {
                Some(v) => self@.len() > 0 && *v == self@[self@.len() - 1],
                None => self@.len() == 0,
            },
    {
        if self.tail == self.head {
            None
        } else {
            let idx = if self.head == 0 {
                N - 1
            } else {
                self.head - 1
            };
            assert(self.slot(self.len_spec() - 1) == idx);
            self.buf[idx].as_ref()
        }
    }
}

impl<T: Copy, const N: usize> RingBuf<T, N> {
    /// Remove and return the oldest element, or `None` when empty.
    pub fn pop(&mut self) -> (r: Option<T>)
        requires
            old(self).wf(),
        ensures
            final(self).wf(),
            match r {
                Some(v) => old(self)@.len() > 0 && v == old(self)@[0] && final(self)@ == old(
                    self,
                )@.skip(1),
                None => old(self)@.len() == 0 && final(self)@ == old(self)@,
            },
    {
        if self.tail == self.head {
            return None;
        }
        assert(self.slot(0) == self.tail);
        let value = self.buf[self.tail];
        self.tail = if self.tail + 1 == N {
            0
        } else {
            self.tail + 1
        };
        proof {
            assert forall|i: int| 0 <= i < self.len_spec() implies (#[trigger] self.buf[self.slot(
                i,
            )]) is Some && self.buf[self.slot(i)]->0 == old(self)@.skip(1)[i] by {
                assert(self.slot(i) == old(self).slot(i + 1));
                assert(old(self).buf[old(self).slot(i + 1)] is Some);
            }
            assert(self@ =~= old(self)@.skip(1));
        }
        match value {
            Some(v) => Some(v),
            None => None,  // unreachable: slot 0 of a non-empty buffer is occupied
        }
    }

    /// Append `value` as the newest element. Fails (returning `false` and
    /// changing nothing) exactly when the buffer is full.
    pub fn push(&mut self, value: T) -> (r: bool)
        requires
            old(self).wf(),
        ensures
            final(self).wf(),
            old(self)@.len() == N - 1 ==> r == false && final(self)@ == old(self)@,
            old(self)@.len() < N - 1 ==> r == true && final(self)@ == old(self)@.push(value),
    {
        let next = if self.head + 1 == N {
            0
        } else {
            self.head + 1
        };
        if next == self.tail {
            false
        } else {
            let ghost oldself = *self;
            self.buf[self.head] = Some(value);
            self.head = next;
            proof {
                assert(self.slot(self.len_spec() - 1) == oldself.head);
                assert forall|i: int| 0 <= i < self.len_spec() implies (#[trigger] self.buf[
                self.slot(i)]) is Some && self.buf[self.slot(i)]->0 == old(self)@.push(value)[i] by {
                    assert(self.slot(i) == oldself.slot(i));
                    if i < self.len_spec() - 1 {
                        assert(oldself.buf[oldself.slot(i)] is Some);
                        assert(self.slot(i) != oldself.head);
                    }
                }
                assert(self@ =~= old(self)@.push(value));
            }
            true
        }
    }

    /// Whether the stored elements occupy one contiguous span of slots, so a
    /// bulk copy needs no wrap-around. Always true of an empty buffer.
    pub fn is_continuous(&self) -> (r: bool)
        requires
            self.wf(),
        ensures
            self@.len() == 0 ==> r,
    {
        self.tail == self.head || self.tail < self.head
    }

    /// Overwrite the first elements of `dest` with the oldest stored
    /// elements, as many as both sides allow; the rest of `dest` is kept.
    pub fn copy_to(&self, dest: &mut Vec<T>) -> (r: usize)
        requires
            self.wf(),
        ensures
            r == if old(dest)@.len() < self@.len() {
                old(dest)@.len()
            } else {
                self@.len()
            },
            final(dest)@ == self@.take(r as int) + old(dest)@.skip(r as int),
    {
        let n = if dest.len() < self.len() {
            dest.len()
        } else {
            self.len()
        };
        let mut i: usize = 0;
        while i < n
            invariant
                self.wf(),
                n <= dest.len(),
                n <= self@.len(),
                i <= n,
                dest@.len() == old(dest)@.len(),
                forall|j: int| 0 <= j < i ==> dest@[j] == self@[j],
                forall|j: int| i <= j < dest@.len() ==> dest@[j] == old(dest)@[j],
            decreases n - i,
        {
            proof {
                assert(self.buf[self.slot(i as int)] is Some);
            }
            let idx = if i < N - self.tail {
                self.tail + i
            } else {
                i - (N - self.tail)
            };
            assert(idx == self.slot(i as int));
            let v = match self.buf[idx] {
                Some(v) => v,
                None => self.buf[idx].unwrap(),  // unreachable: the slot is occupied
            };
            dest[i] = v;
            i += 1;
        }
        assert(dest@ =~= self@.take(n as int) + old(dest)@.skip(n as int));
        n
    }
}


/// One buffer operation: append an element or remove the oldest.
pub enum RingOp<T> {
    /// Try to append this element.
    Push(T),
    /// Try to remove the oldest element.
    Pop,
}

/// The contents after one operation, under the contracts of
/// [`RingBuf::push`] and [`RingBuf::pop`]: a push on a full buffer and a pop
/// on an empty one change nothing.
pub open spec fn ring_step<T>(cap: int, m: Seq<T>, op: RingOp<T>) -> Seq<T> {
    match op {
        RingOp::Push(v) => if m.len() < cap {
            m.push(v)
        } else {
            m
        },
        RingOp::Pop => if m.len() > 0 {
            m.skip(1)
        } else {
            m
        },
    }
}

/// The contents after a whole operation sequence.
pub open spec fn ring_run<T>(cap: int, m: Seq<T>, ops: Seq<RingOp<T>>) -> Seq<T>
    decreases ops.len(),
{
    if ops.len() == 0 {
        m
    } else {
        ring_run(cap, ring_step(cap, m, ops[0]), ops.skip(1))
    }
}

/// Number of pushes of the sequence that succeed.
pub open spec fn ok_pushes<T>(cap: int, m: Seq<T>, ops: Seq<RingOp<T>>) -> int
    decreases ops.len(),
{
    if ops.len() == 0 {
        0
    } else {
        let hit = match ops[0] {
            RingOp::Push(_) => if m.len() < cap {
                1int
            } else {
                0int
            },
            RingOp::Pop => 0int,
        };
        hit + ok_pushes(cap, ring_step(cap, m, ops[0]), ops.skip(1))
    }
}

/// Number of pops of the sequence that succeed.
pub open spec fn ok_pops<T>(cap: int, m: Seq<T>, ops: Seq<RingOp<T>>) -> int
    decreases ops.len(),
{
    if ops.len() == 0 {
        0
    } else {
        let hit = match ops[0] {
            RingOp::Push(_) => 0int,
            RingOp::Pop => if m.len() > 0 {
                1int
            } else {
                0int
            },
        };
        hit + ok_pops(cap, ring_step(cap, m, ops[0]), ops.skip(1))
    }
}

/// For every sequence of pushes and pops, the number of stored elements is
/// the successful pushes minus the successful pops, and never exceeds the
/// usable capacity: a buffer of `N` slots holds exactly up to `N - 1`
/// elements, a push on a full buffer fails, a pop on an empty one yields
/// nothing.
pub proof fn lemma_ring_len_is_pushes_minus_pops<T>(cap: int, m: Seq<T>, ops: Seq<RingOp<T>>)
    requires
        0 <= m.len() <= cap,
    ensures
        ring_run(cap, m, ops).len() == m.len() + ok_pushes(cap, m, ops) - ok_pops(cap, m, ops),
        ring_run(cap, m, ops).len() <= cap,
    decreases ops.len(),
{
    if ops.len() > 0 {
        lemma_ring_len_is_pushes_minus_pops(cap, ring_step(cap, m, ops[0]), ops.skip(1));
    }
}

} // verus!
