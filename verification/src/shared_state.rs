//! The state shared between a timer handle and the worker that completes it.
use crate::poll::Poll;
use vstd::prelude::*;

verus! {

/// Mathematical model of a [`SharedState`].
pub struct SharedStateView<W> {
    /// Whether the delay has elapsed.
    pub completed: bool,
    /// The wake handle registered by the most recent unsuccessful poll.
    pub waker: Option<W>,
}

impl<W> SharedStateView<W> {
    /// The state of a freshly created timer.
    pub open spec fn initial() -> Self {
        SharedStateView { completed: false, waker: None }
    }

    /// A completed timer holds no wake handle: it was taken when the timer
    /// completed, and none is stored afterwards.
    pub open spec fn inv(self) -> bool {
        self.completed ==> self.waker is None
    }

    /// What a poll answers.
    pub open spec fn poll_result(self) -> Poll<()> {
        if self.completed {
            Poll::Ready(())
        } else {
            Poll::Pending
        }
    }

    /// The state after a poll with wake handle `waker`: a completed timer is
    /// left as it is, a running one remembers `waker` in place of any
    /// earlier handle.
    pub open spec fn after_poll(self, waker: W) -> Self {
        if self.completed {
            self
        } else {
            SharedStateView { completed: false, waker: Some(waker) }
        }
    }

    /// The state after the delay has elapsed.
    pub open spec fn after_complete(self) -> Self {
        SharedStateView { completed: true, waker: None }
    }
}

/// Completion flag and registered wake handle of one timer.
///
/// `W` is the type of wake handle: the scheduler's own wake signal, or any
/// handle the embedding program uses to reschedule a task.
pub struct SharedState<W> {
    completed: bool,
    waker: Option<W>,
}

impl<W> View for SharedState<W> {
    type V = SharedStateView<W>;

    closed spec fn view(&self) -> SharedStateView<W> {
        SharedStateView { completed: self.completed, waker: self.waker }
    }
}

impl<W> SharedState<W> {
    /// A timer that has not completed and has no wake handle registered.
    pub fn new() -> (state: Self)
        ensures
            state@ == SharedStateView::<W>::initial(),
            state@.inv(),
    {
        SharedState { completed: false, waker: None }
    }

    /// Whether the delay has elapsed.
    pub fn is_completed(&self) -> (b: bool)
        ensures
            b == self@.completed,
    {
        self.completed
    }

    /// Whether a wake handle is currently registered.
    pub fn has_waker(&self) -> (b: bool)
        ensures
            b == (self@.waker is Some),
    {
        self.waker.is_some()
    }

    /// Checks the timer on behalf of the task that `waker` reschedules.
    ///
    /// A completed timer answers `Ready` and is left untouched; in particular
    /// `waker` is not stored. Otherwise `waker` replaces whatever handle was
    /// registered before and the answer is `Pending`.
    pub fn poll(&mut self, waker: W) -> (result: Poll<()>)
        ensures
            result == old(self)@.poll_result(),
            final(self)@ == old(self)@.after_poll(waker),
    {
        if self.completed {
            Poll::Ready(())
        } else {
            self.waker = Some(waker);
            Poll::Pending
        }
    }

    /// Marks the delay as elapsed and hands out the registered wake handle,
    /// if any, so that the caller can invoke it.
    pub fn complete(&mut self) -> (waker: Option<W>)
        ensures
            waker == old(self)@.waker,
            final(self)@ == old(self)@.after_complete(),
    {
        self.completed = true;
        self.waker.take()
    }
}

/// The invariant holds initially and every operation maintains it.
pub proof fn lemma_inv_is_maintained<W>(state: SharedStateView<W>, waker: W)
    requires
        state.inv(),
    ensures
        SharedStateView::<W>::initial().inv(),
        state.after_poll(waker).inv(),
        state.after_complete().inv(),
{
}

/// Completion is permanent: neither a poll nor a repeated completion makes a
/// completed timer run again, and from completion on every poll answers
/// `Ready`.
pub proof fn lemma_completion_is_permanent<W>(state: SharedStateView<W>, waker: W)
    requires
        state.completed,
    ensures
        state.after_poll(waker).completed,
        state.after_complete().completed,
        state.poll_result() is Ready,
        state.after_poll(waker).poll_result() is Ready,
{
}

/// A poll answers `Ready` exactly when the timer has completed.
pub proof fn lemma_ready_iff_completed<W>(state: SharedStateView<W>)
    ensures
        state.poll_result() is Ready <==> state.completed,
        state.poll_result() is Pending <==> !state.completed,
{
}

/// Of several polls of a running timer only the wake handle of the last one
/// is kept.
pub proof fn lemma_last_registration_wins<W>(state: SharedStateView<W>, first: W, second: W)
    requires
        !state.completed,
    ensures
        state.after_poll(first).after_poll(second).waker == Some(second),
        state.after_poll(first).after_poll(second) == state.after_poll(second),
{
}

/// A wake handle registered before completion is handed out by the
/// completion, exactly once, and a poll after completion answers `Ready`
/// without registering its wake handle: no handle is left behind.
pub proof fn lemma_no_registration_after_completion<W>(
    state: SharedStateView<W>,
    before: W,
    after: W,
)
    requires
        state.inv(),
        !state.completed,
    ensures
        state.after_poll(before).poll_result() is Pending,
        state.after_poll(before).waker == Some(before),
        state.after_poll(before).after_complete().waker is None,
        state.after_poll(before).after_complete().poll_result() is Ready,
        state.after_poll(before).after_complete().after_poll(after) == state.after_poll(
            before,
        ).after_complete(),
        state.after_poll(before).after_complete().after_complete().waker is None,
{
}

} // verus!
