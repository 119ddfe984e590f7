//! Timers: suspendable computations that become ready after a delay.
//!
//! The delay itself is not measured here. A [`TimerTable`] keeps, for every
//! timer, how much of its delay is still outstanding, and whoever drives the
//! scheduler reports the passage of time through [`TimerTable::advance`].
use crate::computation::{Context, SuspendableComputation};
use crate::poll::Poll;
use crate::shared_state::{SharedState, SharedStateView};
use crate::wake::WakeSignal;
use vstd::prelude::*;

verus! {

/// Mathematical model of one timer of a [`TimerTable`].
pub struct TimerView {
    /// The part of the delay that has not elapsed yet.
    pub remaining: nat,
    /// Completion flag and registered wake signal.
    pub state: SharedStateView<WakeSignal>,
}

impl TimerView {
    /// A timer that was just started with the given delay.
    pub open spec fn started(duration: nat) -> Self {
        TimerView { remaining: duration, state: SharedStateView::initial() }
    }

    /// A completed timer has nothing left of its delay and holds no signal.
    pub open spec fn inv(self) -> bool {
        &&& self.state.inv()
        &&& self.state.completed ==> self.remaining == 0
    }

    /// Whether the timer completes when `elapsed` more time passes.
    pub open spec fn fires(self, elapsed: nat) -> bool {
        !self.state.completed && self.remaining <= elapsed
    }

    /// The timer after a poll on behalf of the task that `waker` reschedules.
    pub open spec fn after_poll(self, waker: WakeSignal) -> Self {
        TimerView { state: self.state.after_poll(waker), ..self }
    }

    /// The timer after its worker has finished the delay.
    pub open spec fn after_complete(self) -> Self {
        TimerView { remaining: 0, state: self.state.after_complete() }
    }

    /// The timer after `elapsed` more time has passed.
    pub open spec fn after_advance(self, elapsed: nat) -> Self {
        if self.state.completed {
            self
        } else if self.remaining <= elapsed {
            self.after_complete()
        } else {
            TimerView { remaining: (self.remaining - elapsed) as nat, state: self.state }
        }
    }
}

/// What a poll of timer `id` answers. A timer that does not exist never
/// completes.
pub open spec fn timers_poll_result(timers: Seq<TimerView>, id: int) -> Poll<()> {
    if 0 <= id < timers.len() {
        timers[id].state.poll_result()
    } else {
        Poll::Pending
    }
}

/// The timers after a poll of timer `id` on behalf of the task that `waker`
/// reschedules.
pub open spec fn timers_after_poll(timers: Seq<TimerView>, id: int, waker: WakeSignal) -> Seq<
    TimerView,
> {
    if 0 <= id < timers.len() {
        timers.update(id, timers[id].after_poll(waker))
    } else {
        timers
    }
}

/// The wake signal that the worker of timer `id` has to fire when the delay
/// is over.
pub open spec fn timers_complete_result(timers: Seq<TimerView>, id: int) -> Option<WakeSignal> {
    if 0 <= id < timers.len() {
        timers[id].state.waker
    } else {
        None
    }
}

/// The timers after the worker of timer `id` has finished the delay.
pub open spec fn timers_after_complete(timers: Seq<TimerView>, id: int) -> Seq<TimerView> {
    if 0 <= id < timers.len() {
        timers.update(id, timers[id].after_complete())
    } else {
        timers
    }
}

/// All timers of a table after `elapsed` more time has passed.
pub open spec fn timers_after_advance(timers: Seq<TimerView>, elapsed: nat) -> Seq<TimerView> {
    Seq::new(timers.len(), |i: int| timers[i].after_advance(elapsed))
}

/// The wake signals released when `elapsed` more time passes: for every timer
/// that completes and has a signal registered, that signal, in the order in
/// which the timers were started.
pub open spec fn signals_released(timers: Seq<TimerView>, elapsed: nat) -> Seq<WakeSignal>
    decreases timers.len(),
{
    if timers.len() == 0 {
        Seq::empty()
    } else {
        let earlier = signals_released(timers.drop_last(), elapsed);
        let timer = timers.last();
        if timer.fires(elapsed) && timer.state.waker is Some {
            earlier.push(timer.state.waker->0)
        } else {
            earlier
        }
    }
}

/// Every timer of the sequence satisfies its invariant.
pub open spec fn timers_inv(timers: Seq<TimerView>) -> bool {
    forall|i: int| 0 <= i < timers.len() ==> (#[trigger] timers[i]).inv()
}

struct TimerEntry {
    remaining: u64,
    state: SharedState<WakeSignal>,
}

impl TimerEntry {
    spec fn model(self) -> TimerView {
        TimerView { remaining: self.remaining as nat, state: self.state@ }
    }
}

/// The timers of one scheduler, each identified by the order in which it was
/// started.
pub struct TimerTable {
    entries: Vec<TimerEntry>,
}

impl View for TimerTable {
    type V = Seq<TimerView>;

    closed spec fn view(&self) -> Seq<TimerView> {
        Seq::new(self.entries@.len(), |i: int| self.entries@[i].model())
    }
}

impl TimerTable {
    /// Whether every timer satisfies its invariant.
    pub open spec fn wf(&self) -> bool {
        timers_inv(self@)
    }

    /// A table without timers.
    pub fn new() -> (table: Self)
        ensures
            table@ == Seq::<TimerView>::empty(),
            table.wf(),
    {
        let table = TimerTable { entries: Vec::new() };
        assert(table@ =~= Seq::<TimerView>::empty());
        table
    }

    /// The number of timers started so far.
    pub fn len(&self) -> (n: usize)
        ensures
            n == self@.len(),
    {
        self.entries.len()
    }

    /// Starts a timer with the given delay and returns its number.
    pub fn start(&mut self, duration: u64) -> (id: usize)
        requires
            old(self).wf(),
        ensures
            id == old(self)@.len(),
            final(self)@ == old(self)@.push(TimerView::started(duration as nat)),
            final(self).wf(),
    {
        let id = self.entries.len();
        self.entries.push(TimerEntry { remaining: duration, state: SharedState::new() });
        assert(self@ =~= old(self)@.push(TimerView::started(duration as nat)));
        id
    }

    /// Whether timer `id` exists and has completed.
    pub fn is_completed(&self, id: usize) -> (b: bool)
        ensures
            b == (id < self@.len() && self@[id as int].state.completed),
    {
        if id < self.entries.len() {
            self.entries[id].state.is_completed()
        } else {
            false
        }
    }

    /// Polls timer `id` on behalf of the task that `waker` reschedules.
    ///
    /// A completed timer answers `Ready` and stores nothing. A running timer
    /// answers `Pending` and remembers `waker` in place of any signal stored
    /// before. A timer that does not exist never completes: the answer is
    /// `Pending` and nothing is stored.
    pub fn poll(&mut self, id: usize, waker: WakeSignal) -> (result: Poll<()>)
        requires
            old(self).wf(),
        ensures
            result == timers_poll_result(old(self)@, id as int),
            final(self)@ == timers_after_poll(old(self)@, id as int, waker),
            final(self).wf(),
    {
        if id < self.entries.len() {
            let result = self.entries[id].state.poll(waker);
            assert(self@ =~= timers_after_poll(old(self)@, id as int, waker));
            result
        } else {
            Poll::Pending
        }
    }

    /// Finishes the delay of timer `id`, as its worker does once it has
    /// slept long enough: the timer is marked completed and the registered
    /// wake signal, if any, is taken out and returned for the caller to fire.
    /// Nothing happens for a timer that does not exist.
    pub fn complete(&mut self, id: usize) -> (waker: Option<WakeSignal>)
        requires
            old(self).wf(),
        ensures
            waker == timers_complete_result(old(self)@, id as int),
            final(self)@ == timers_after_complete(old(self)@, id as int),
            final(self).wf(),
    {
        if id < self.entries.len() {
            let waker = self.entries[id].state.complete();
            self.entries[id].remaining = 0;
            assert(self@ =~= timers_after_complete(old(self)@, id as int));
            waker
        } else {
            None
        }
    }

    /// Lets `elapsed` units of time pass.
    ///
    /// Every running timer whose outstanding delay is at most `elapsed`
    /// completes; the others have `elapsed` taken off their outstanding
    /// delay. The wake signals of the timers that completed are returned, in
    /// the order in which those timers were started, for the caller to fire.
    pub fn advance(&mut self, elapsed: u64) -> (released: Vec<WakeSignal>)
        requires
            old(self).wf(),
        ensures
            released@ == signals_released(old(self)@, elapsed as nat),
            final(self)@ == timers_after_advance(old(self)@, elapsed as nat),
            final(self).wf(),
    {
        let mut released: Vec<WakeSignal> = Vec::new();
        let mut i: usize = 0;
        let n = self.entries.len();
        while i < n
            invariant
                i <= n,
                n == self.entries@.len(),
                self@.len() == old(self)@.len(),
                old(self).wf(),
                forall|k: int| 0 <= k < i ==> self@[k] == old(self)@[k].after_advance(elapsed as nat),
                forall|k: int| i <= k < n ==> self@[k] == old(self)@[k],
                released@ == signals_released(old(self)@.subrange(0, i as int), elapsed as nat),
            decreases n - i,
        {
            let ghost before = self@;
            assert(old(self)@.subrange(0, i + 1).drop_last() =~= old(self)@.subrange(0, i as int));
            assert(self@[i as int] == old(self)@[i as int]);
            if !self.entries[i].state.is_completed() {
                if self.entries[i].remaining <= elapsed {
                    let waker = self.entries[i].state.complete();
                    self.entries[i].remaining = 0;
                    match waker {
                        Some(signal) => {
                            released.push(signal);
                        },
                        None => {},
                    }
                } else {
                    self.entries[i].remaining = self.entries[i].remaining - elapsed;
                }
            }
            assert(self@[i as int] == old(self)@[i as int].after_advance(elapsed as nat));
            assert forall|k: int| 0 <= k < i implies self@[k] == old(self)@[k].after_advance(
                elapsed as nat,
            ) by {
                assert(self@[k] == before[k]);
            }
            assert forall|k: int| i + 1 <= k < n implies self@[k] == old(self)@[k] by {
                assert(self@[k] == before[k]);
            }
            i = i + 1;
        }
        assert(old(self)@.subrange(0, n as int) =~= old(self)@);
        assert(self@ =~= timers_after_advance(old(self)@, elapsed as nat));
        released
    }
}

/// A suspendable computation that becomes ready once a delay is over.
///
/// The handle names a timer of a [`TimerTable`]; the state it shares with the
/// timer's worker lives in that table.
pub struct TimerFuture {
    id: usize,
}

impl TimerFuture {
    /// The number of the timer in its table.
    pub closed spec fn id(&self) -> int {
        self.id as int
    }

    /// Starts a timer that completes once `duration` units of time have
    /// passed, and returns the computation that waits for it.
    pub fn new(duration: u64, timers: &mut TimerTable) -> (timer: Self)
        requires
            old(timers).wf(),
        ensures
            timer.id() == old(timers)@.len(),
            final(timers)@ == old(timers)@.push(TimerView::started(duration as nat)),
            final(timers).wf(),
    {
        let id = timers.start(duration);
        TimerFuture { id }
    }

    /// The number of the timer in its table.
    pub fn timer_id(&self) -> (id: usize)
        ensures
            id == self.id(),
    {
        self.id
    }
}

impl SuspendableComputation for TimerFuture {
    type Output = ();

    /// A poll leaves the handle as it is, answers what the timer answers,
    /// and registers the wake signal with the timer if the timer is still
    /// running.
    open spec fn poll_spec(
        &self,
        waker: WakeSignal,
        timers: Seq<TimerView>,
        after: &Self,
        result: Poll<()>,
        timers_after: Seq<TimerView>,
    ) -> bool {
        &&& *after == *self
        &&& result == timers_poll_result(timers, self.id())
        &&& timers_after == timers_after_poll(timers, self.id(), waker)
    }

    /// Answers `Ready` once the timer has completed. Until then it registers
    /// the wake signal of the context, in place of any signal registered by
    /// an earlier poll, and answers `Pending`.
    fn poll(&mut self, cx: &mut Context<'_>) -> (result: Poll<()>) {
        cx.timers.poll(self.id, cx.waker)
    }
}

/// The invariant holds for a fresh timer and every operation maintains it.
pub proof fn lemma_timer_inv_is_maintained(timer: TimerView, waker: WakeSignal, elapsed: nat)
    requires
        timer.inv(),
    ensures
        TimerView::started(elapsed).inv(),
        timer.after_poll(waker).inv(),
        timer.after_complete().inv(),
        timer.after_advance(elapsed).inv(),
{
}

/// Time adds up: letting `first` and then `second` pass is the same as
/// letting their sum pass at once.
pub proof fn lemma_advance_adds_up(timer: TimerView, first: nat, second: nat)
    requires
        timer.inv(),
    ensures
        timer.after_advance(first).after_advance(second) == timer.after_advance(first + second),
{
}

/// A timer started with delay `duration` has completed exactly when at least
/// `duration` has passed, for every delay including zero; until then a poll
/// answers `Pending`, from then on `Ready`. Polls in between change neither.
pub proof fn lemma_timer_completes_when_time_is_up(duration: nat, elapsed: nat, waker: WakeSignal)
    ensures
        TimerView::started(duration).state.poll_result() is Pending,
        TimerView::started(duration).after_advance(elapsed).state.completed <==> duration
            <= elapsed,
        TimerView::started(duration).after_advance(elapsed).state.poll_result() is Ready
            <==> duration <= elapsed,
        TimerView::started(duration).after_poll(waker).after_advance(elapsed).state.completed
            <==> duration <= elapsed,
{
}

/// Completion is permanent: whatever happens to a completed timer, it stays
/// completed, keeps answering `Ready`, and never releases a wake signal
/// again.
pub proof fn lemma_timer_completion_is_permanent(timer: TimerView, waker: WakeSignal, elapsed: nat)
    requires
        timer.inv(),
        timer.state.completed,
    ensures
        timer.after_poll(waker) == timer,
        timer.after_advance(elapsed) == timer,
        timer.after_complete() == timer,
        timer.state.poll_result() is Ready,
        !timer.fires(elapsed),
{
}

/// A timer releases the wake signal of the last poll before its completion,
/// at the moment of completion and never again.
pub proof fn lemma_signal_is_released_once(
    timer: TimerView,
    waker: WakeSignal,
    elapsed: nat,
    later: nat,
)
    requires
        timer.inv(),
        !timer.state.completed,
        timer.remaining <= elapsed,
    ensures
        signals_released(seq![timer.after_poll(waker)], elapsed) == seq![waker],
        signals_released(seq![timer.after_poll(waker).after_advance(elapsed)], later) == Seq::<
            WakeSignal,
        >::empty(),
{
    let armed = seq![timer.after_poll(waker)];
    assert(armed.drop_last() =~= Seq::<TimerView>::empty());
    assert(signals_released(armed.drop_last(), elapsed) == Seq::<WakeSignal>::empty());
    assert(signals_released(armed, elapsed) =~= seq![waker]);
    let done = seq![timer.after_poll(waker).after_advance(elapsed)];
    assert(done.drop_last() =~= Seq::<TimerView>::empty());
    assert(signals_released(done.drop_last(), later) == Seq::<WakeSignal>::empty());
}

/// A timer that completes releases the wake signal registered with it: the
/// signal is among those handed out when the delay ends.
pub proof fn lemma_firing_timer_releases_its_signal(timers: Seq<TimerView>, elapsed: nat, id: int)
    requires
        0 <= id < timers.len(),
        timers[id].fires(elapsed),
        timers[id].state.waker is Some,
    ensures
        signals_released(timers, elapsed).contains(timers[id].state.waker->0),
    decreases timers.len(),
{
    let earlier = signals_released(timers.drop_last(), elapsed);
    let last = timers.last();
    if id == timers.len() - 1 {
        assert(signals_released(timers, elapsed) == earlier.push(last.state.waker->0));
        assert(earlier.push(last.state.waker->0)[earlier.len() as int] == last.state.waker->0);
    } else {
        lemma_firing_timer_releases_its_signal(timers.drop_last(), elapsed, id);
        let signal = timers[id].state.waker->0;
        let place = choose|k: int| 0 <= k < earlier.len() && earlier[k] == signal;
        if last.fires(elapsed) && last.state.waker is Some {
            assert(earlier.push(last.state.waker->0)[place] == signal);
        }
    }
}

/// Timers run side by side: once as much time has passed as the longest
/// outstanding delay, every timer of the table has completed, however many
/// there are.
pub proof fn lemma_all_complete_after_longest(timers: Seq<TimerView>, elapsed: nat)
    requires
        timers_inv(timers),
        forall|i: int| 0 <= i < timers.len() ==> (#[trigger] timers[i]).remaining <= elapsed,
    ensures
        timers_inv(timers_after_advance(timers, elapsed)),
        forall|i: int|
            0 <= i < timers.len() ==> (#[trigger] timers_after_advance(
                timers,
                elapsed,
            )[i]).state.completed,
{
    assert forall|i: int| 0 <= i < timers.len() implies (#[trigger] timers_after_advance(
        timers,
        elapsed,
    )[i]).state.completed && timers_after_advance(timers, elapsed)[i].inv() by {
        assert(timers[i].inv());
    }
}

/// A table stays well-formed under every operation.
pub proof fn lemma_table_inv_is_maintained(
    timers: Seq<TimerView>,
    id: int,
    waker: WakeSignal,
    elapsed: nat,
)
    requires
        timers_inv(timers),
    ensures
        timers_inv(timers.push(TimerView::started(elapsed))),
        timers_inv(timers_after_poll(timers, id, waker)),
        timers_inv(timers_after_complete(timers, id)),
        timers_inv(timers_after_advance(timers, elapsed)),
{
    assert forall|i: int| 0 <= i < timers.len() implies (#[trigger] timers_after_advance(
        timers,
        elapsed,
    )[i]).inv() by {
        assert(timers[i].inv());
    }
    assert forall|i: int| 0 <= i < timers.len() implies (#[trigger] timers_after_poll(
        timers,
        id,
        waker,
    )[i]).inv() by {
        assert(timers[i].inv());
    }
    assert forall|i: int| 0 <= i < timers.len() implies (#[trigger] timers_after_complete(
        timers,
        id,
    )[i]).inv() by {
        assert(timers[i].inv());
    }
    assert forall|i: int| 0 <= i < timers.len() + 1 implies (#[trigger] timers.push(
        TimerView::started(elapsed),
    )[i]).inv() by {
        if i < timers.len() {
            assert(timers[i].inv());
        }
    }
}

} // verus!
