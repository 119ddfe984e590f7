//! The capability interface of suspendable computations.
use crate::poll::Poll;
use crate::timer::{TimerTable, TimerView};
use crate::wake::WakeSignal;
use vstd::prelude::*;

verus! {

/// What a computation is handed when it is polled: the wake signal of the
/// task it runs in, and the timers it may start and check.
///
/// A computation composed of others polls them with the context it was
/// polled with, in a fixed order, and returns `Pending` as soon as one of
/// them does.
pub struct Context<'a> {
    /// Fires to have the polled task polled again.
    pub waker: WakeSignal,
    /// The timers of the scheduler.
    pub timers: &'a mut TimerTable,
}

impl<'a> Context<'a> {
    /// The context of a poll of the task that `waker` reschedules.
    pub fn from_waker(waker: WakeSignal, timers: &'a mut TimerTable) -> (cx: Self)
        ensures
            cx.waker == waker,
            *cx.timers == *old(timers),
            *final(cx.timers) == *final(timers),
    {
        Context { waker, timers }
    }

    /// The wake signal of the polled task.
    pub fn waker(&self) -> (waker: WakeSignal)
        ensures
            waker == self.waker,
    {
        self.waker
    }
}

/// A unit of work that reports readiness through polling instead of
/// blocking.
///
/// A computation suspends by returning `Pending`; it is then polled again
/// only after the wake signal of its context has been fired. Once it has
/// returned `Ready` it must not be polled any more.
pub trait SuspendableComputation {
    /// The value that the computation completes with.
    type Output;

    /// What a poll may do: whether a poll of this computation, with wake
    /// signal `waker` and timers `timers`, may answer `result` and leave the
    /// computation as `after` and the timers as `timers_after`.
    open spec fn poll_spec(
        &self,
        waker: WakeSignal,
        timers: Seq<TimerView>,
        after: &Self,
        result: Poll<Self::Output>,
        timers_after: Seq<TimerView>,
    ) -> bool {
        true
    }

    /// Makes as much progress as is possible without waiting.
    ///
    /// An implementation may start and check timers through the context. It
    /// keeps the timer table well-formed, and it leaves the context with the
    /// wake signal and the table it was handed.
    fn poll(&mut self, cx: &mut Context<'_>) -> (result: Poll<Self::Output>)
        requires
            old(cx).timers.wf(),
        ensures
            old(self).poll_spec(
                old(cx).waker,
                old(cx).timers@,
                final(self),
                result,
                final(cx).timers@,
            ),
            final(cx).timers.wf(),
            final(cx).waker == old(cx).waker,
            *final(final(cx).timers) == *final(old(cx).timers),
    ;
}

/// One poll as it looks from outside the computation.
pub struct PollStep {
    /// The wake signal of the context.
    pub waker: WakeSignal,
    /// The timers before the poll.
    pub timers: Seq<TimerView>,
    /// What the computation answered.
    pub result: Poll<()>,
    /// The timers after the poll.
    pub timers_after: Seq<TimerView>,
}

/// Whether successive polls of `computation` may go as `steps` tell, one
/// after the other.
pub open spec fn may_go<C: SuspendableComputation<Output = ()>>(
    computation: C,
    steps: Seq<PollStep>,
) -> bool
    decreases steps.len(),
{
    steps.len() == 0 || exists|next: C| #[trigger]
        computation.poll_spec(
            steps[0].waker,
            steps[0].timers,
            &next,
            steps[0].result,
            steps[0].timers_after,
        ) && may_go(next, steps.subrange(1, steps.len() as int))
}

/// What is left of a computation once its type is forgotten: it can be
/// polled, and it is known how its polls may go.
pub trait ErasedComputation {
    /// Whether successive polls of the computation may go as `steps` tell.
    spec fn erased_may_go(&self, steps: Seq<PollStep>) -> bool;

    /// Polls the computation.
    ///
    /// The poll is one that the computation allows, and whichever way the
    /// polls may go from here, they may go that way after this poll.
    fn poll_erased(&mut self, cx: &mut Context<'_>) -> (result: Poll<()>)
        requires
            old(cx).timers.wf(),
        ensures
            final(self).erased_may_go(Seq::empty()),
            forall|rest: Seq<PollStep>| #[trigger]
                final(self).erased_may_go(rest) ==> old(self).erased_may_go(
                    seq![
                        PollStep {
                            waker: old(cx).waker,
                            timers: old(cx).timers@,
                            result,
                            timers_after: final(cx).timers@,
                        },
                    ] + rest,
                ),
            final(cx).timers.wf(),
            final(cx).waker == old(cx).waker,
            *final(final(cx).timers) == *final(old(cx).timers),
    ;
}

impl<C: SuspendableComputation<Output = ()>> ErasedComputation for C {
    /// The polls of the erased computation go as the polls of the
    /// computation.
    open spec fn erased_may_go(&self, steps: Seq<PollStep>) -> bool {
        may_go(*self, steps)
    }

    fn poll_erased(&mut self, cx: &mut Context<'_>) -> (result: Poll<()>) {
        let result = self.poll(cx);
        proof {
            let step = PollStep {
                waker: old(cx).waker,
                timers: old(cx).timers@,
                result,
                timers_after: cx.timers@,
            };
            assert forall|rest: Seq<PollStep>| #[trigger] may_go(*self, rest) implies may_go(
                *old(self),
                seq![step] + rest,
            ) by {
                let steps = seq![step] + rest;
                assert(steps[0] == step);
                assert(steps.subrange(1, steps.len() as int) =~= rest);
                assert(old(self).poll_spec(
                    steps[0].waker,
                    steps[0].timers,
                    &*self,
                    steps[0].result,
                    steps[0].timers_after,
                ));
            }
        }
        result
    }
}

/// A computation in boxed, type-erased form.
///
/// Tasks of one executor all hold the same type of computation. Boxing lets
/// computations of different types share an executor.
pub struct BoxedComputation {
    computation: Box<dyn ErasedComputation>,
}

impl BoxedComputation {
    /// Whether successive polls of the box may go as `steps` tell.
    pub closed spec fn may_go(&self, steps: Seq<PollStep>) -> bool {
        self.computation.erased_may_go(steps)
    }

    /// Boxes `computation` and forgets its type. The polls of the box go as
    /// the polls of `computation`.
    pub fn new<C: SuspendableComputation<Output = ()> + 'static>(computation: C) -> (boxed:
        BoxedComputation)
        ensures
            forall|steps: Seq<PollStep>| #[trigger]
                boxed.may_go(steps) <==> may_go(computation, steps),
    {
        BoxedComputation { computation: Box::new(computation) }
    }
}

impl SuspendableComputation for BoxedComputation {
    type Output = ();

    /// A poll of the box is a poll of the computation inside: it is one that
    /// the computation allows, and whichever way the polls may go with the
    /// box as the poll leaves it, they may go that way after this poll.
    open spec fn poll_spec(
        &self,
        waker: WakeSignal,
        timers: Seq<TimerView>,
        after: &Self,
        result: Poll<()>,
        timers_after: Seq<TimerView>,
    ) -> bool {
        &&& after.may_go(Seq::empty())
        &&& forall|rest: Seq<PollStep>| #[trigger]
            after.may_go(rest) ==> self.may_go(
                seq![PollStep { waker, timers, result, timers_after }] + rest,
            )
    }

    /// Polls the computation inside the box.
    fn poll(&mut self, cx: &mut Context<'_>) -> (result: Poll<()>) {
        self.computation.poll_erased(cx)
    }
}

/// A box follows its content. If the polls of a box go only as the polls of
/// `computation` may go, then a poll of the box is a poll that `computation`
/// allows, and whichever way the polls go on with the box as that poll
/// leaves it, `computation` allows them after that poll.
pub proof fn lemma_box_follows_its_content<C: SuspendableComputation<Output = ()>>(
    boxed: BoxedComputation,
    computation: C,
    waker: WakeSignal,
    timers: Seq<TimerView>,
    after: BoxedComputation,
    result: Poll<()>,
    timers_after: Seq<TimerView>,
)
    requires
        forall|steps: Seq<PollStep>| #[trigger] boxed.may_go(steps) ==> may_go(computation, steps),
        boxed.poll_spec(waker, timers, &after, result, timers_after),
    ensures
        exists|next: C| #[trigger]
            computation.poll_spec(waker, timers, &next, result, timers_after),
        forall|rest: Seq<PollStep>| #[trigger]
            after.may_go(rest) ==> may_go(
                computation,
                seq![PollStep { waker, timers, result, timers_after }] + rest,
            ),
{
    let step = PollStep { waker, timers, result, timers_after };
    let alone = seq![step] + Seq::<PollStep>::empty();
    assert(boxed.may_go(alone));
    assert(may_go(computation, alone));
    assert(alone[0] == step);
}

} // verus!
