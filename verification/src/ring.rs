//! Fixed-capacity queue that carries samples from the decoder to the output.

use vstd::prelude::*;

verus! {

/// Index of the slot that holds the `i`-th queued item when the oldest item
/// sits in slot `head` of `cap` slots.
pub open spec fn slot_of(head: int, i: int, cap: int) -> int {
    if head + i < cap {
        head + i
    } else {
        head + i - cap
    }
}

/// The queue after one push: `item` goes behind the others while there is
/// room, and a full queue stays as it is.
pub open spec fn after_push<T>(queue: Seq<T>, capacity: nat, item: T) -> Seq<T> {
    if queue.len() < capacity {
        queue.push(item)
    } else {
        queue
    }
}

/// The queue after one pop: the oldest item leaves.
pub open spec fn after_pop<T>(queue: Seq<T>) -> Seq<T> {
    if queue.len() > 0 {
        queue.drop_first()
    } else {
        queue
    }
}

/// What one pop hands out: the oldest item, if any.
pub open spec fn popped<T>(queue: Seq<T>) -> Option<T> {
    if queue.len() > 0 {
        Some(queue[0])
    } else {
        None
    }
}

/// The queue after pushing `items` one after the other.
pub open spec fn after_pushes<T>(queue: Seq<T>, capacity: nat, items: Seq<T>) -> Seq<T>
    decreases items.len(),
{
    if items.len() == 0 {
        queue
    } else {
        after_pushes(after_push(queue, capacity, items[0]), capacity, items.drop_first())
    }
}

/// What `n` pops in a row hand out, in the order in which they come.
pub open spec fn pops<T>(queue: Seq<T>, n: nat) -> Seq<Option<T>>
    decreases n,
{
    if n == 0 {
        Seq::empty()
    } else {
        seq![popped(queue)] + pops(after_pop(queue), (n - 1) as nat)
    }
}

/// Pushes that fit are all kept, in order, behind what was queued.
pub proof fn lemma_pushes_append<T>(queue: Seq<T>, capacity: nat, items: Seq<T>)
    requires
        queue.len() + items.len() <= capacity,
    ensures
        after_pushes(queue, capacity, items) == queue + items,
    decreases items.len(),
{
    if items.len() > 0 {
        lemma_pushes_append(queue.push(items[0]), capacity, items.drop_first());
    }
}

/// Pops hand out the front of the queue, oldest first.
pub proof fn lemma_pops_front<T>(queue: Seq<T>, n: nat)
    requires
        n <= queue.len(),
    ensures
        pops(queue, n) == queue.take(n as int).map_values(|item: T| Some(item)),
    decreases n,
{
    if n > 0 {
        lemma_pops_front(queue.drop_first(), (n - 1) as nat);
    }
}

/// First in, first out: after pushing `items` into an empty ring that has room
/// for all of them, as many pops return exactly `items`, in the order in which
/// they were pushed.
pub proof fn law_fifo<T>(capacity: nat, items: Seq<T>)
    requires
        items.len() <= capacity,
    ensures
        pops(after_pushes(Seq::<T>::empty(), capacity, items), items.len())
            == items.map_values(|item: T| Some(item)),
{
    lemma_pushes_append(Seq::<T>::empty(), capacity, items);
    lemma_pops_front(items, items.len());
}

/// A ring of `capacity` slots with a read index and a fill count.
///
/// One side pushes, the other pops; neither operation waits. Its view is the
/// queued items, oldest first.
pub struct RingBuffer<T: Copy> {
    slots: Vec<Option<T>>,
    head: usize,
    count: usize,
}

impl<T: Copy> View for RingBuffer<T> {
    type V = Seq<T>;

    closed spec fn view(&self) -> Seq<T> {
        Seq::new(
            self.count as nat,
            |i: int| self.slots@[slot_of(self.head as int, i, self.slots@.len() as int)].unwrap(),
        )
    }
}

impl<T: Copy> RingBuffer<T> {
    #[verifier::type_invariant]
    closed spec fn inv(self) -> bool {
        &&& self.count <= self.slots@.len()
        &&& self.head < self.slots@.len() || (self.head == 0 && self.slots@.len() == 0)
        &&& forall|i: int|
            0 <= i < self.count ==> (#[trigger] self.slots@[slot_of(
                self.head as int,
                i,
                self.slots@.len() as int,
            )]) is Some
    }

    /// Number of slots.
    pub closed spec fn spec_capacity(&self) -> nat {
        self.slots@.len()
    }

    /// An empty ring with room for `capacity` items.
    pub fn new(capacity: usize) -> (ring: Self)
        ensures
            ring@ == Seq::<T>::empty(),
            ring.spec_capacity() == capacity,
    {
        let mut slots: Vec<Option<T>> = Vec::with_capacity(capacity);
        let mut i: usize = 0;
        while i < capacity
            invariant
                i <= capacity,
                slots@.len() == i,
            decreases capacity - i,
        {
            slots.push(None);
            i += 1;
        }
        let ring = RingBuffer { slots, head: 0, count: 0 };
        ring
    }

    /// Number of slots.
    pub fn capacity(&self) -> (n: usize)
        ensures
            n == self.spec_capacity(),
    {
        self.slots.len()
    }

    /// Number of queued items.
    pub fn len(&self) -> (n: usize)
        ensures
            n == self@.len(),
            n <= self.spec_capacity(),
    {
        proof {
            use_type_invariant(self);
        }
        self.count
    }

    /// Number of items that can still be pushed.
    pub fn free_len(&self) -> (n: usize)
        ensures
            n == self.spec_capacity() - self@.len(),
    {
        proof {
            use_type_invariant(self);
        }
        self.slots.len() - self.count
    }

    /// Whether nothing is queued.
    pub fn is_empty(&self) -> (b: bool)
        ensures
            b == (self@.len() == 0),
    {
        self.count == 0
    }

    /// Whether every slot is taken.
    pub fn is_full(&self) -> (b: bool)
        ensures
            b == (self@.len() == self.spec_capacity()),
    {
        self.count == self.slots.len()
    }

    /// Queues `item` behind everything already queued, or hands it back when
    /// the ring is full.
    pub fn push(&mut self, item: T) -> (r: Result<(), T>)
        ensures
            final(self).spec_capacity() == old(self).spec_capacity(),
            final(self)@ == after_push(old(self)@, old(self).spec_capacity(), item),
            r == if old(self)@.len() < old(self).spec_capacity() {
                Ok::<(), T>(())
            } else {
                Err::<(), T>(item)
            },
        no_unwind
    {
        proof {
            use_type_invariant(&*self);
        }
        let cap = self.slots.len();
        if self.count == cap {
            return Err(item);
        }
        let to_end = cap - self.head;
        let tail = if self.count < to_end {
            self.head + self.count
        } else {
            self.count - to_end
        };
        let ghost before = *self;
        self.slots[tail] = Some(item);
        self.count = self.count + 1;
        assert(self@ =~= before@.push(item));
        Ok(())
    }

    /// Takes the oldest queued item, if there is one.
    pub fn pop(&mut self) -> (r: Option<T>)
        ensures
            final(self).spec_capacity() == old(self).spec_capacity(),
            final(self)@ == after_pop(old(self)@),
            r == popped(old(self)@),
        no_unwind
    {
        proof {
            use_type_invariant(&*self);
        }
        if self.count == 0 {
            return None;
        }
        let ghost before = *self;
        let cap = self.slots.len();
        let item = match self.slots[self.head] {
            Some(item) => item,
            None => return None,
        };
        let next = if self.head + 1 == cap {
            0
        } else {
            self.head + 1
        };
        self.count = self.count - 1;
        proof {
            assert forall|i: int| 0 <= i < self.count implies (#[trigger] self.slots@[slot_of(
                next as int,
                i,
                cap as int,
            )]) is Some by {
                assert(slot_of(next as int, i, cap as int) == slot_of(
                    before.head as int,
                    i + 1,
                    cap as int,
                ));
            }
        }
        self.head = next;
        Some(item)
    }

    /// Drops everything queued.
    pub fn clear(&mut self)
        ensures
            final(self).spec_capacity() == old(self).spec_capacity(),
            final(self)@ == Seq::<T>::empty(),
    {
        proof {
            use_type_invariant(&*self);
        }
        self.count = 0;
    }
}

} // verus!
