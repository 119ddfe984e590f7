//! The bounded first-in first-out queue that hands tasks to the executor.
use std::collections::VecDeque;
use vstd::prelude::*;

verus! {

/// Why an item could not be placed on a [`WorkQueue`].
#[derive(Debug, Clone, Copy, PartialEq, Eq, Structural)]
pub enum SendError {
    /// The queue already holds as many items as its capacity allows.
    Full,
    /// The receiving end has gone away; nothing will be delivered any more.
    Closed,
}

/// Mathematical model of a [`WorkQueue`].
pub struct WorkQueueView<T> {
    /// The queued items, oldest first.
    pub items: Seq<T>,
    /// The largest number of items the queue may hold.
    pub capacity: nat,
    /// Whether the receiving end has gone away.
    pub closed: bool,
}

impl<T> WorkQueueView<T> {
    /// An open queue of the given capacity that holds nothing.
    pub open spec fn empty(capacity: nat) -> Self {
        WorkQueueView { items: Seq::empty(), capacity, closed: false }
    }

    /// The queue never holds more than its capacity, and a closed queue
    /// holds nothing.
    pub open spec fn inv(self) -> bool {
        &&& self.items.len() <= self.capacity
        &&& self.closed ==> self.items.len() == 0
    }

    /// Whether no further item fits.
    pub open spec fn is_full(self) -> bool {
        self.items.len() >= self.capacity
    }

    /// The answer to an attempt to send an item.
    pub open spec fn send_result(self) -> Result<(), SendError> {
        if self.closed {
            Err(SendError::Closed)
        } else if self.is_full() {
            Err(SendError::Full)
        } else {
            Ok(())
        }
    }

    /// The queue after an attempt to send `item`: the item is appended
    /// behind all others when the attempt succeeds, and nothing changes
    /// when it does not.
    pub open spec fn after_send(self, item: T) -> Self {
        if self.send_result() is Ok {
            WorkQueueView { items: self.items.push(item), ..self }
        } else {
            self
        }
    }

    /// The item the next receive yields: the oldest one, if there is any.
    pub open spec fn recv_result(self) -> Option<T> {
        if self.items.len() > 0 {
            Some(self.items[0])
        } else {
            None
        }
    }

    /// The queue after a receive: without its oldest item.
    pub open spec fn after_recv(self) -> Self {
        if self.items.len() > 0 {
            WorkQueueView { items: self.items.subrange(1, self.items.len() as int), ..self }
        } else {
            self
        }
    }

    /// The queue after its receiving end has gone away: whatever was queued
    /// is discarded together with it.
    pub open spec fn after_close(self) -> Self {
        WorkQueueView { items: Seq::empty(), closed: true, ..self }
    }
}

/// A bounded queue with first-in first-out delivery.
///
/// Producers are refused, not delayed, when the queue is full, so that they
/// experience back-pressure instead of unbounded growth.
pub struct WorkQueue<T> {
    items: VecDeque<T>,
    capacity: usize,
    closed: bool,
}

impl<T> View for WorkQueue<T> {
    type V = WorkQueueView<T>;

    closed spec fn view(&self) -> WorkQueueView<T> {
        WorkQueueView { items: self.items@, capacity: self.capacity as nat, closed: self.closed }
    }
}

impl<T> WorkQueue<T> {
    /// An open queue that holds nothing and accepts up to `capacity` items.
    pub fn new(capacity: usize) -> (queue: Self)
        ensures
            queue@ == WorkQueueView::<T>::empty(capacity as nat),
            queue@.inv(),
    {
        WorkQueue { items: VecDeque::new(), capacity, closed: false }
    }

    /// The number of queued items.
    pub fn len(&self) -> (n: usize)
        ensures
            n == self@.items.len(),
    {
        self.items.len()
    }

    /// Whether nothing is queued.
    pub fn is_empty(&self) -> (b: bool)
        ensures
            b == (self@.items.len() == 0),
    {
        self.items.len() == 0
    }

    /// Whether no further item fits.
    pub fn is_full(&self) -> (b: bool)
        ensures
            b == self@.is_full(),
    {
        self.items.len() >= self.capacity
    }

    /// The largest number of items the queue may hold.
    pub fn capacity(&self) -> (n: usize)
        ensures
            n == self@.capacity,
    {
        self.capacity
    }

    /// Whether the receiving end has gone away.
    pub fn is_closed(&self) -> (b: bool)
        ensures
            b == self@.closed,
    {
        self.closed
    }

    /// Appends `item` behind everything already queued.
    ///
    /// Fails with `Closed` on a closed queue and with `Full` on an open queue
    /// that is at capacity; in both cases the queue is left as it was.
    pub fn send(&mut self, item: T) -> (result: Result<(), SendError>)
        requires
            old(self)@.inv(),
        ensures
            result == old(self)@.send_result(),
            final(self)@ == old(self)@.after_send(item),
            final(self)@.inv(),
    {
        if self.closed {
            Err(SendError::Closed)
        } else if self.items.len() >= self.capacity {
            Err(SendError::Full)
        } else {
            self.items.push_back(item);
            Ok(())
        }
    }

    /// Removes and returns the oldest item, or returns `None` when nothing is
    /// queued.
    pub fn recv(&mut self) -> (item: Option<T>)
        requires
            old(self)@.inv(),
        ensures
            item == old(self)@.recv_result(),
            final(self)@ == old(self)@.after_recv(),
            final(self)@.inv(),
    {
        self.items.pop_front()
    }

    /// Closes the queue on behalf of its receiving end and discards what is
    /// still queued.
    pub fn close(&mut self)
        ensures
            final(self)@ == old(self)@.after_close(),
            final(self)@.inv(),
    {
        self.items.clear();
        self.closed = true;
    }
}

/// The invariant holds for a new queue and every operation maintains it: a
/// queue never grows beyond its capacity.
pub proof fn lemma_queue_inv_is_maintained<T>(queue: WorkQueueView<T>, item: T, capacity: nat)
    requires
        queue.inv(),
    ensures
        WorkQueueView::<T>::empty(capacity).inv(),
        queue.after_send(item).inv(),
        queue.after_recv().inv(),
        queue.after_close().inv(),
{
}

/// First in, first out: what is sent later is received later. An item sent
/// to a queue that holds others waits until all of them have been received,
/// and of two items sent one after the other the first is received first.
pub proof fn lemma_first_in_first_out<T>(queue: WorkQueueView<T>, first: T, second: T)
    requires
        queue.inv(),
        !queue.closed,
        queue.items.len() + 2 <= queue.capacity,
    ensures
        queue.items.len() > 0 ==> queue.after_send(first).recv_result() == queue.recv_result(),
        queue.items.len() > 0 ==> queue.after_send(first).after_recv() == queue.after_recv().after_send(
            first,
        ),
        queue.items.len() == 0 ==> queue.after_send(first).after_send(second).recv_result()
            == Some(first),
        queue.items.len() == 0 ==> queue.after_send(first).after_send(
            second,
        ).after_recv().recv_result() == Some(second),
        queue.after_send(first).after_send(second).items == queue.items + seq![first, second],
{
    if queue.items.len() > 0 {
        assert(queue.after_send(first).after_recv().items =~= queue.after_recv().after_send(
            first,
        ).items);
    }
    assert(queue.after_send(first).after_send(second).items =~= queue.items + seq![first, second]);
}

/// A refused item leaves no trace: a send to a full or closed queue changes
/// nothing.
pub proof fn lemma_refused_send_changes_nothing<T>(queue: WorkQueueView<T>, item: T)
    requires
        queue.closed || queue.is_full(),
    ensures
        queue.send_result() is Err,
        queue.after_send(item) == queue,
{
}

} // verus!
