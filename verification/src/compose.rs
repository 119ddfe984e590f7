//! Computations built from other computations.
//!
//! A composed computation is an ordinary state machine. It polls its parts
//! in a fixed order with the context it was polled with, so that whichever
//! part suspends leaves the wake signal of the whole task behind.
use crate::computation::{Context, SuspendableComputation};
use crate::poll::Poll;
use crate::timer::TimerView;
use crate::wake::WakeSignal;
use vstd::prelude::*;

verus! {

/// Two computations one after the other: the second starts when the first
/// has completed, and its value is the value of the whole.
pub struct Sequence<A, B> {
    /// The first computation, until it has completed.
    pub first: Option<A>,
    /// The second computation.
    pub second: B,
}

impl<A: SuspendableComputation<Output = ()>, B: SuspendableComputation> Sequence<A, B> {
    /// `first`, then `second`.
    pub fn new(first: A, second: B) -> (sequence: Self)
        ensures
            sequence.first == Some(first),
            sequence.second == second,
    {
        Sequence { first: Some(first), second }
    }
}

impl<A: SuspendableComputation<Output = ()>, B: SuspendableComputation> SuspendableComputation
    for Sequence<A, B> {
    type Output = B::Output;

    /// While the first part is there, a poll polls it. If it suspends, so
    /// does the whole. If it completes, it is dropped and the second part is
    /// polled in the same poll. Once the first part is gone, a poll is a
    /// poll of the second part.
    open spec fn poll_spec(
        &self,
        waker: WakeSignal,
        timers: Seq<TimerView>,
        after: &Self,
        result: Poll<B::Output>,
        timers_after: Seq<TimerView>,
    ) -> bool {
        match self.first {
            Some(first) => exists|next: A, answer: Poll<()>, between: Seq<TimerView>| #[trigger]
                first.poll_spec(waker, timers, &next, answer, between) && match answer {
                    Poll::Pending => {
                        &&& after.first == Some(next)
                        &&& after.second == self.second
                        &&& result is Pending
                        &&& timers_after == between
                    },
                    Poll::Ready(_) => {
                        &&& after.first is None
                        &&& self.second.poll_spec(
                            waker,
                            between,
                            &after.second,
                            result,
                            timers_after,
                        )
                    },
                },
            None => {
                &&& after.first is None
                &&& self.second.poll_spec(waker, timers, &after.second, result, timers_after)
            },
        }
    }

    fn poll(&mut self, cx: &mut Context<'_>) -> (result: Poll<B::Output>) {
        match self.first.take() {
            Some(mut first) => {
                let ghost before = first;
                let ghost timers = cx.timers@;
                let answer = first.poll(cx);
                assert(before.poll_spec(old(cx).waker, timers, &first, answer, cx.timers@));
                match answer {
                    Poll::Pending => {
                        self.first = Some(first);
                        return Poll::Pending;
                    },
                    Poll::Ready(_) => {},
                }
            },
            None => {},
        }
        self.second.poll(cx)
    }
}

/// Two computations side by side: both are polled with every poll until
/// each has completed, and the whole completes when both have.
pub struct Join<A, B> {
    /// The first computation, until it has completed.
    pub first: Option<A>,
    /// The second computation, until it has completed.
    pub second: Option<B>,
}

/// What a poll may do to a part that is dropped as soon as it completes:
/// whether polling `part` may leave `after` of it and `timers_after` of the
/// timers. A part that is gone is not polled.
pub open spec fn part_polled<C: SuspendableComputation<Output = ()>>(
    part: Option<C>,
    waker: WakeSignal,
    timers: Seq<TimerView>,
    after: Option<C>,
    timers_after: Seq<TimerView>,
) -> bool {
    match part {
        Some(computation) => exists|next: C, answer: Poll<()>| #[trigger]
            computation.poll_spec(waker, timers, &next, answer, timers_after) && after == (
            match answer {
                Poll::Pending => Some(next),
                Poll::Ready(_) => None::<C>,
            }),
        None => after is None && timers_after == timers,
    }
}

/// Polls a part that is dropped as soon as it completes.
fn poll_part<C: SuspendableComputation<Output = ()>>(part: &mut Option<C>, cx: &mut Context<'_>)
    requires
        old(cx).timers.wf(),
    ensures
        part_polled(*old(part), old(cx).waker, old(cx).timers@, *final(part), final(cx).timers@),
        final(cx).timers.wf(),
        final(cx).waker == old(cx).waker,
        *final(final(cx).timers) == *final(old(cx).timers),
{
    match part.take() {
        Some(mut computation) => {
            let ghost before = computation;
            let ghost timers = cx.timers@;
            let answer = computation.poll(cx);
            assert(before.poll_spec(cx.waker, timers, &computation, answer, cx.timers@));
            match answer {
                Poll::Pending => {
                    *part = Some(computation);
                },
                Poll::Ready(_) => {},
            }
        },
        None => {},
    }
}

impl<A: SuspendableComputation<Output = ()>, B: SuspendableComputation<Output = ()>> Join<A, B> {
    /// `first` side by side with `second`.
    pub fn new(first: A, second: B) -> (join: Self)
        ensures
            join.first == Some(first),
            join.second == Some(second),
    {
        Join { first: Some(first), second: Some(second) }
    }
}

impl<
    A: SuspendableComputation<Output = ()>,
    B: SuspendableComputation<Output = ()>,
> SuspendableComputation for Join<A, B> {
    type Output = ();

    /// A poll polls the first part and then the second, each unless it has
    /// completed before, and answers `Ready` when neither is left.
    open spec fn poll_spec(
        &self,
        waker: WakeSignal,
        timers: Seq<TimerView>,
        after: &Self,
        result: Poll<()>,
        timers_after: Seq<TimerView>,
    ) -> bool {
        &&& exists|between: Seq<TimerView>|
            {
                &&& #[trigger] part_polled(self.first, waker, timers, after.first, between)
                &&& part_polled(self.second, waker, between, after.second, timers_after)
            }
        &&& result is Ready <==> after.first is None && after.second is None
    }

    fn poll(&mut self, cx: &mut Context<'_>) -> (result: Poll<()>) {
        poll_part(&mut self.first, cx);
        let ghost between = cx.timers@;
        poll_part(&mut self.second, cx);
        assert(part_polled(
            old(self).first,
            old(cx).waker,
            old(cx).timers@,
            self.first,
            between,
        ));
        if self.first.is_none() && self.second.is_none() {
            Poll::Ready(())
        } else {
            Poll::Pending
        }
    }
}

/// Two computations in a race: the whole completes with the value of the
/// part that completes first.
pub struct Race<A, B> {
    /// The computation that is polled first.
    pub first: A,
    /// The computation that is polled second.
    pub second: B,
}

impl<A: SuspendableComputation, B: SuspendableComputation<Output = A::Output>> Race<A, B> {
    /// `first` against `second`.
    pub fn new(first: A, second: B) -> (race: Self)
        ensures
            race.first == first,
            race.second == second,
    {
        Race { first, second }
    }
}

impl<A: SuspendableComputation, B: SuspendableComputation<Output = A::Output>> SuspendableComputation
    for Race<A, B> {
    type Output = A::Output;

    /// A poll polls the first part. If it completes, its value is the value
    /// of the whole and the second part is not polled. Otherwise the poll
    /// goes on to the second part and answers what that part answers.
    open spec fn poll_spec(
        &self,
        waker: WakeSignal,
        timers: Seq<TimerView>,
        after: &Self,
        result: Poll<A::Output>,
        timers_after: Seq<TimerView>,
    ) -> bool {
        exists|answer: Poll<A::Output>, between: Seq<TimerView>| #[trigger]
            self.first.poll_spec(waker, timers, &after.first, answer, between) && match answer {
                Poll::Ready(value) => {
                    &&& result == Poll::Ready(value)
                    &&& after.second == self.second
                    &&& timers_after == between
                },
                Poll::Pending => self.second.poll_spec(
                    waker,
                    between,
                    &after.second,
                    result,
                    timers_after,
                ),
            }
    }

    fn poll(&mut self, cx: &mut Context<'_>) -> (result: Poll<A::Output>) {
        let ghost timers = cx.timers@;
        let answer = self.first.poll(cx);
        let ghost between = cx.timers@;
        let ghost first_answer = answer;
        let result = match answer {
            Poll::Ready(value) => {
                let result = Poll::Ready(value);
                assert(result == first_answer);
                result
            },
            Poll::Pending => self.second.poll(cx),
        };
        assert(old(self).first.poll_spec(old(cx).waker, timers, &self.first, first_answer, between));
        result
    }
}

} // verus!
