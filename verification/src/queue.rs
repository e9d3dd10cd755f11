//! A subject for the harness: a queue in a ring of fixed size.

use vstd::arithmetic::div_mod::{lemma_mod_self_0, lemma_small_mod};
use vstd::prelude::*;

verus! {

/// A ring of slots with a write cursor and a read cursor, and no count of
/// what lies between them: a ring whose cursors meet counts as empty.
pub struct Queue {
    buf: Vec<i32>,
    inp: usize,
    outp: usize,
}

/// A cursor that moves on by one slot in a ring of `size` slots goes back to
/// the first slot after the last.
proof fn lemma_next_cursor(cursor: int, size: int)
    requires
        0 <= cursor < size,
    ensures
        (cursor + 1) % size == if cursor + 1 == size {
            0
        } else {
            cursor + 1
        },
{
    if cursor + 1 == size {
        lemma_mod_self_0(size);
    } else {
        lemma_small_mod((cursor + 1) as nat, size as nat);
    }
}

/// The slots of a ring from `head` up to `tail`, round the end of the ring
/// where `tail` is behind `head`.
pub open spec fn ring(slots: Seq<i32>, head: int, tail: int) -> Seq<i32> {
    if head <= tail {
        slots.subrange(head, tail)
    } else {
        slots.subrange(head, slots.len() as int) + slots.subrange(0, tail)
    }
}

/// Moving the read cursor on drops the oldest element.
proof fn lemma_ring_pop(slots: Seq<i32>, head: int, tail: int, next: int)
    requires
        0 <= head < slots.len(),
        0 <= tail < slots.len(),
        head != tail,
        next == if head + 1 == slots.len() {
            0
        } else {
            head + 1
        },
    ensures
        ring(slots, head, tail).len() > 0,
        ring(slots, head, tail)[0] == slots[head],
        ring(slots, next, tail) == ring(slots, head, tail).drop_first(),
{
    assert(ring(slots, next, tail) =~= ring(slots, head, tail).drop_first());
}

/// Filling the slot at the write cursor and moving the cursor on appends an
/// element, unless the cursor then meets the read cursor.
proof fn lemma_ring_push(slots: Seq<i32>, head: int, tail: int, next: int, n: i32)
    requires
        0 <= head < slots.len(),
        0 <= tail < slots.len(),
        next == if tail + 1 == slots.len() {
            0
        } else {
            tail + 1
        },
    ensures
        ring(slots, head, tail).len() + 1 < slots.len() ==> ring(
            slots.update(tail, n),
            head,
            next,
        ) == ring(slots, head, tail).push(n),
        ring(slots, head, tail).len() + 1 == slots.len() ==> ring(
            slots.update(tail, n),
            head,
            next,
        ) == Seq::<i32>::empty(),
{
    if ring(slots, head, tail).len() + 1 < slots.len() {
        assert(ring(slots.update(tail, n), head, next) =~= ring(slots, head, tail).push(n));
    }
    if ring(slots, head, tail).len() + 1 == slots.len() {
        assert(ring(slots.update(tail, n), head, next) =~= Seq::<i32>::empty());
    }
}

impl View for Queue {
    type V = Seq<i32>;

    /// What is queued, oldest first: the slots from the read cursor up to the
    /// write cursor, round the end of the ring where the write cursor is
    /// behind.
    open spec fn view(&self) -> Seq<i32> {
        ring(self.slots(), self.head(), self.tail())
    }
}

impl Queue {
    /// The ring, slot by slot.
    pub closed spec fn slots(&self) -> Seq<i32> {
        self.buf@
    }

    /// The read cursor: the slot that the next `pop` takes.
    pub closed spec fn head(&self) -> int {
        self.outp as int
    }

    /// The write cursor: the slot that the next `push` fills.
    pub closed spec fn tail(&self) -> int {
        self.inp as int
    }

    /// Both cursors are in the ring, or at zero where the ring has no slot.
    pub open spec fn wf(&self) -> bool {
        &&& 0 <= self.head() <= self.slots().len()
        &&& 0 <= self.tail() <= self.slots().len()
        &&& self.slots().len() > 0 ==> self.head() < self.slots().len() && self.tail()
            < self.slots().len()
    }

    /// An empty queue in a ring of `size` slots.
    pub fn new(size: usize) -> (queue: Queue)
        ensures
            queue.wf(),
            queue.slots() == Seq::new(size as nat, |i: int| 0i32),
            queue.head() == 0,
            queue.tail() == 0,
            queue@ == Seq::<i32>::empty(),
    {
        Queue { buf: vec![0; size], inp: 0, outp: 0 }
    }

    /// Puts `n` into the slot at the write cursor and moves the cursor on. A
    /// ring with one free slot left has no room: the push makes the cursors
    /// meet, and the queue is empty after it.
    pub fn push(&mut self, n: i32)
        requires
            old(self).wf(),
            old(self).slots().len() > 0,
        ensures
            final(self).wf(),
            final(self).slots() == old(self).slots().update(old(self).tail(), n),
            final(self).tail() == (old(self).tail() + 1) % (old(self).slots().len() as int),
            final(self).head() == old(self).head(),
            old(self)@.len() + 1 < old(self).slots().len() ==> final(self)@ == old(self)@.push(n),
            old(self)@.len() + 1 == old(self).slots().len() ==> final(self)@ == Seq::<i32>::empty(),
    {
        let size = self.buf.len();
        let at = self.inp;
        proof {
            lemma_next_cursor(at as int, size as int);
        }
        self.buf[at] = n;
        self.inp = (at + 1) % size;
        proof {
            lemma_ring_push(old(self).slots(), old(self).head(), at as int, self.tail(), n);
        }
    }

    /// Takes what is in the slot at the read cursor and moves the cursor on.
    /// On a queue that holds something this is its oldest element; on an
    /// empty one it is whatever the slot held.
    pub fn pop(&mut self) -> (ans: i32)
        requires
            old(self).wf(),
            old(self).slots().len() > 0,
        ensures
            final(self).wf(),
            ans == old(self).slots()[old(self).head()],
            final(self).slots() == old(self).slots(),
            final(self).head() == (old(self).head() + 1) % (old(self).slots().len() as int),
            final(self).tail() == old(self).tail(),
            old(self)@.len() > 0 ==> {
                &&& ans == old(self)@[0]
                &&& final(self)@ == old(self)@.drop_first()
            },
    {
        let size = self.buf.len();
        let at = self.outp;
        proof {
            lemma_next_cursor(at as int, size as int);
        }
        let ans = self.buf[at];
        self.outp = (at + 1) % size;
        proof {
            if old(self)@.len() > 0 {
                lemma_ring_pop(self.slots(), at as int, self.tail(), self.head());
            }
        }
        ans
    }

    /// How many elements are queued, while the write cursor has not gone
    /// round the end of the ring and behind the read cursor.
    pub fn len(&self) -> (len: usize)
        requires
            self.wf(),
            self.slots().len() > 0,
            self.head() <= self.tail(),
        ensures
            len == self.tail() - self.head(),
            len == self@.len(),
    {
        proof {
            lemma_small_mod((self.inp - self.outp) as nat, self.buf.len() as nat);
        }
        (self.inp - self.outp) % self.buf.len()
    }
}

} // verus!
