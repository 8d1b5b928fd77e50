//! A fixed-size ring buffer over sixteen slots.  One slot always stays
//! free to tell a full queue from an empty one, so the queue holds at
//! most fifteen items.

use vstd::prelude::*;

verus! {

/// How many slots the ring has.
pub const QUEUE_SIZE: u8 = 16;

/// The ring buffer: a read index, a write index, and the slot array.
pub struct Queue<T> {
    q_first: u8,
    q_last: u8,
    queue_array: Vec<Option<T>>,
}

impl<T> Queue<T> {
    /// How many items the queue holds.
    spec fn len_spec(&self) -> nat {
        ((self.q_last + 16 - self.q_first) % 16) as nat
    }

    /// The held items, oldest first.
    pub closed spec fn items(&self) -> Seq<T> {
        Seq::new(
            self.len_spec(),
            |i: int| self.queue_array@[(self.q_first + i) % 16]->0,
        )
    }

    /// The ring's internal consistency: sixteen slots, indices in
    /// range, and an occupied slot under every held item.
    pub closed spec fn wf(&self) -> bool {
        &&& self.queue_array@.len() == 16
        &&& self.q_first < 16
        &&& self.q_last < 16
        &&& forall|i: int|
            0 <= i < self.len_spec() ==> self.queue_array@[
                #[trigger] ((self.q_first + i) % 16)
            ] is Some
    }

    /// An empty queue.
    pub fn new() -> (r: Self)
        ensures
            r.wf(),
            r.items() == Seq::<T>::empty(),
    {
        let mut queue_array: Vec<Option<T>> = Vec::new();
        let mut i: usize = 0;
        while i < 16
            invariant
                i <= 16,
                queue_array@.len() == i,
                forall|j: int| 0 <= j < i ==> queue_array@[j] is None,
            decreases 16 - i,
        {
            queue_array.push(None);
            i = i + 1;
        }
        let r = Queue { q_first: 0, q_last: 0, queue_array };
        proof {
            assert(r.items() =~= Seq::<T>::empty());
        }
        r
    }

    /// Appends an item.  The ring must have room: one slot always stays
    /// free, so at most fifteen items fit.
    #[verifier::rlimit(60)]
    pub fn add(&mut self, item: T)
        requires
            old(self).wf(),
            old(self).items().len() < 15,
        ensures
            final(self).wf(),
            final(self).items() == old(self).items().push(item),
    {
        proof {
            assert(old(self).items().len() == old(self).len_spec());
        }
        let idx = self.q_last as usize;
        self.queue_array.set(idx, Some(item));
        self.q_last = (self.q_last + 1) % QUEUE_SIZE;
        proof {
            assert(final(self).len_spec() == old(self).len_spec() + 1);
            assert(final(self).items() =~= old(self).items().push(item));
        }
    }

    /// Removes and returns the oldest item; `None` on an empty queue.
    pub fn remove(&mut self) -> (r: Option<T>)
        requires
            old(self).wf(),
        ensures
            final(self).wf(),
            old(self).items().len() == 0 ==> r is None && final(self).items() == old(
                self,
            ).items(),
            old(self).items().len() > 0 ==> {
                &&& r == Some(old(self).items()[0])
                &&& final(self).items() == old(self).items().drop_first()
            },
    {
        if self.is_empty() {
            return None;
        }
        let mut taken: Option<T> = None;
        let idx = self.q_first as usize;
        self.queue_array.set_and_swap(idx, &mut taken);
        self.q_first = (self.q_first + 1) % QUEUE_SIZE;
        proof {
            assert(final(self).len_spec() == old(self).len_spec() - 1);
            assert forall|i: int|
                0 <= i < final(self).len_spec() implies self.queue_array@[
                #[trigger] ((self.q_first + i) % 16)
            ] is Some by {
                assert((self.q_first + i) % 16 == (old(self).q_first + (i + 1)) % 16);
                assert(old(self).queue_array@[(old(self).q_first + (i + 1)) % 16] is Some);
                assert((old(self).q_first + (i + 1)) % 16 != old(self).q_first);
            }
            assert(final(self).items() =~= old(self).items().drop_first());
        }
        taken
    }

    /// Whether the queue holds nothing.
    pub fn is_empty(&self) -> (r: bool)
        requires
            self.wf(),
        ensures
            r == (self.items().len() == 0),
    {
        self.q_first == self.q_last
    }
}

} // verus!
