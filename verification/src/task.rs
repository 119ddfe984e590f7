//! The executor's unit of scheduling: an exclusive slot for a computation.
use crate::poll::Poll;
use vstd::prelude::*;

verus! {

/// Mathematical model of a [`Task`].
pub struct TaskView<F> {
    /// The computation, unless it has completed, was abandoned, or is being
    /// polled right now.
    pub slot: Option<F>,
    /// How many times the computation has been taken out to be polled.
    pub polls: nat,
}

impl<F> TaskView<F> {
    /// A task that holds `computation` and has never been polled.
    pub open spec fn holding(computation: F) -> Self {
        TaskView { slot: Some(computation), polls: 0 }
    }

    /// The task after its computation was taken out to be polled. Taking
    /// from an empty slot is not a poll.
    pub open spec fn after_take(self) -> Self {
        TaskView { slot: None, polls: if self.slot is Some { self.polls + 1 } else { self.polls } }
    }

    /// The task after a poll of `computation` has answered `result`: a
    /// pending computation goes back into the slot, a ready one does not.
    pub open spec fn after_settle(self, computation: F, result: Poll<()>) -> Self {
        match result {
            Poll::Pending => TaskView { slot: Some(computation), ..self },
            Poll::Ready(_) => self,
        }
    }

    /// The task after its computation was dropped.
    pub open spec fn after_abandon(self) -> Self {
        TaskView { slot: None, ..self }
    }
}

/// A slot that holds the computation of a task between polls.
///
/// The slot is empty while the computation is being polled and stays empty
/// once the computation has completed, so that a computation is never polled
/// twice at a time and never after it has finished.
pub struct Task<F> {
    future: Option<F>,
    polls: Ghost<nat>,
}

impl<F> View for Task<F> {
    type V = TaskView<F>;

    closed spec fn view(&self) -> TaskView<F> {
        TaskView { slot: self.future, polls: self.polls@ }
    }
}

impl<F> Task<F> {
    /// A task that holds `computation` and has never been polled.
    pub fn new(computation: F) -> (task: Self)
        ensures
            task@ == TaskView::holding(computation),
    {
        Task { future: Some(computation), polls: Ghost(0) }
    }

    /// Whether the slot is empty.
    pub fn is_empty(&self) -> (b: bool)
        ensures
            b == (self@.slot is None),
    {
        self.future.is_none()
    }

    /// Takes the computation out of the slot in order to poll it.
    pub fn take(&mut self) -> (computation: Option<F>)
        ensures
            computation == old(self)@.slot,
            final(self)@ == old(self)@.after_take(),
    {
        let computation = self.future.take();
        proof {
            if computation is Some {
                self.polls@ = self.polls@ + 1;
            }
        }
        computation
    }

    /// Finishes a poll of `computation` that answered `result`: puts the
    /// computation back if it is still pending, and drops it if it is ready.
    pub fn settle(&mut self, computation: F, result: Poll<()>)
        ensures
            final(self)@ == old(self)@.after_settle(computation, result),
    {
        match result {
            Poll::Pending => {
                self.future = Some(computation);
            },
            Poll::Ready(_) => {},
        }
    }

    /// Drops the computation, if there is one, without polling it.
    pub fn abandon(&mut self)
        ensures
            final(self)@ == old(self)@.after_abandon(),
    {
        self.future = None;
    }
}

} // verus!
