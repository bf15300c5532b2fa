use vstd::prelude::*;

verus! {

/// The contents of a queue with room for `capacity` items after `m` is offered:
/// `m` joins the back if there is room, else nothing changes.
pub open spec fn offer<T>(queue: Seq<T>, capacity: nat, m: T) -> Seq<T> {
    if queue.len() < capacity {
        queue.push(m)
    } else {
        queue
    }
}

/// The contents after offering each of `ms` in turn.
pub open spec fn offer_all<T>(queue: Seq<T>, capacity: nat, ms: Seq<T>) -> Seq<T>
    decreases ms.len(),
{
    if ms.len() == 0 {
        queue
    } else {
        offer(offer_all(queue, capacity, ms.drop_last()), capacity, ms.last())
    }
}

/// Bounded, ordered hand-off of measurements from connection handlers to the
/// aggregator. A send into a full queue fails and hands the item back: nothing
/// is ever dropped silently.
///
/// The queue is a plain value that its owner shares behind a lock, rather than
/// the two ends of an asynchronous channel: the contents of such a channel are
/// changed by tasks that hold other ends, so no handle determines them and no
/// contract over one handle could state what a drain returns.
pub struct MeasurementQueue<T> {
    items: Vec<T>,
    capacity: usize,
}

impl<T> View for MeasurementQueue<T> {
    type V = Seq<T>;

    closed spec fn view(&self) -> Seq<T> {
        self.items@
    }
}

impl<T> MeasurementQueue<T> {
    /// The number of items the queue holds at most.
    pub closed spec fn spec_capacity(&self) -> nat {
        self.capacity as nat
    }

    pub open spec fn wf(&self) -> bool {
        0 < self.spec_capacity() && self@.len() <= self.spec_capacity()
    }

    /// An empty queue with room for `capacity` items.
    pub fn new(capacity: usize) -> (q: Self)
        requires
            capacity > 0,
        ensures
            q.wf(),
            q@ == Seq::<T>::empty(),
            q.spec_capacity() == capacity,
    {
        MeasurementQueue { items: Vec::new(), capacity }
    }

    pub fn capacity(&self) -> (r: usize)
        ensures
            r == self.spec_capacity(),
    {
        self.capacity
    }

    pub fn len(&self) -> (r: usize)
        requires
            self.wf(),
        ensures
            r == self@.len(),
    {
        self.items.len()
    }

    pub fn is_full(&self) -> (r: bool)
        requires
            self.wf(),
        ensures
            r == (self@.len() >= self.spec_capacity()),
    {
        self.items.len() >= self.capacity
    }

    /// Appends `m` if there is room; otherwise fails and hands `m` back.
    pub fn try_send(&mut self, m: T) -> (r: Result<(), T>)
        requires
            old(self).wf(),
        ensures
            final(self).wf(),
            final(self).spec_capacity() == old(self).spec_capacity(),
            final(self)@ == offer(old(self)@, old(self).spec_capacity(), m),
            r is Ok <==> old(self)@.len() < old(self).spec_capacity(),
            r is Err ==> r == Err::<(), T>(m),
    {
        if self.items.len() < self.capacity {
            self.items.push(m);
            Ok(())
        } else {
            Err(m)
        }
    }

    /// Takes the oldest item, if any.
    pub fn try_recv(&mut self) -> (r: Option<T>)
        requires
            old(self).wf(),
        ensures
            final(self).wf(),
            final(self).spec_capacity() == old(self).spec_capacity(),
            old(self)@.len() == 0 ==> r is None && final(self)@ == old(self)@,
            old(self)@.len() > 0 ==> r == Some(old(self)@[0]) && final(self)@ == old(self)@.drop_first(),
    {
        if self.items.len() == 0 {
            None
        } else {
            Some(self.items.remove(0))
        }
    }

    /// Takes every item the queue holds at this moment, oldest first, without
    /// waiting for more.
    pub fn drain(&mut self) -> (r: Vec<T>)
        requires
            old(self).wf(),
        ensures
            final(self).wf(),
            final(self).spec_capacity() == old(self).spec_capacity(),
            r@ == old(self)@,
            final(self)@ == Seq::<T>::empty(),
    {
        let mut taken: Vec<T> = Vec::new();
        std::mem::swap(&mut taken, &mut self.items);
        taken
    }
}

/// A drain hands over exactly what was accepted before it, and what is sent
/// after it waits for the next drain: when the queue has room for them, the
/// items sent after a drain are exactly what the next drain returns, in order.
pub proof fn lemma_sends_after_drain_go_to_next_window<T>(capacity: nat, ms: Seq<T>)
    requires
        ms.len() <= capacity,
    ensures
        offer_all(Seq::<T>::empty(), capacity, ms) == ms,
    decreases ms.len(),
{
    if ms.len() > 0 {
        lemma_sends_after_drain_go_to_next_window(capacity, ms.drop_last());
        assert(ms.drop_last().push(ms.last()) =~= ms);
    }
}

/// A full queue refuses a send and keeps its contents; once drained, the same
/// item is accepted.
pub proof fn lemma_full_queue_refuses_until_drained<T>(queue: Seq<T>, capacity: nat, m: T)
    requires
        capacity > 0,
        queue.len() == capacity,
    ensures
        offer(queue, capacity, m) == queue,
        offer(Seq::<T>::empty(), capacity, m) == seq![m],
{
    assert(Seq::<T>::empty().push(m) =~= seq![m]);
}

} // verus!
