//! The scheduler core: spawner, wake-up delivery and the run loop.
use crate::computation::{Context, SuspendableComputation};
use crate::poll::Poll;
use crate::queue::{SendError, WorkQueue, WorkQueueView};
use crate::run_laws::lemma_run_polls_as_queued;
use crate::task::{Task, TaskView};
use crate::timer::{TimerTable, TimerView};
use crate::wake::WakeSignal;
use vstd::prelude::*;

verus! {

/// The number of tasks that may wait on the work queue at any one time.
pub const MAX_QUEUED_TASKS: usize = 10_000;

/// How a call of [`Executor::run`] ended.
#[derive(Debug, Clone, Copy, PartialEq, Eq, Structural)]
pub enum RunOutcome {
    /// Every task has completed or was abandoned and no spawner is left:
    /// nothing can arrive any more.
    Finished,
    /// The work queue is empty, but a task is still suspended or the spawner
    /// is still connected. The executor has to be run again after the next
    /// wake-up or spawn.
    Blocked,
}

/// How often `task` occurs in `items`.
pub open spec fn occurrences(items: Seq<usize>, task: int) -> nat
    decreases items.len(),
{
    if items.len() == 0 {
        0
    } else if items.last() == task {
        occurrences(items.drop_last(), task) + 1
    } else {
        occurrences(items.drop_last(), task)
    }
}

/// What a run may do to one task that was queued `wakes` times.
///
/// The task is polled at most once per queue entry and never without one; a
/// task without computation is not touched at all; a task that still holds
/// its computation afterwards was polled for every one of its entries, each
/// time with the answer `Pending`; and a queued task that held a computation
/// was polled at least once.
pub open spec fn polled_as_queued<C>(before: TaskView<C>, after: TaskView<C>, wakes: nat) -> bool {
    &&& before.polls <= after.polls <= before.polls + wakes
    &&& (wakes == 0 || before.slot is None) ==> after == before
    &&& (wakes > 0 && before.slot is Some) ==> after.polls > before.polls
    &&& after.slot is Some ==> before.slot is Some && after.polls == before.polls + wakes
}

/// Whether no task holds a computation any more.
pub open spec fn all_completed<C>(tasks: Seq<TaskView<C>>) -> bool {
    forall|i: int| 0 <= i < tasks.len() ==> (#[trigger] tasks[i]).slot is None
}

/// Mathematical model of an [`Executor`].
pub struct ExecutorView<C> {
    /// The numbers of the tasks that wait to be polled, oldest first.
    pub queue: WorkQueueView<usize>,
    /// Every task ever spawned, in the order of spawning.
    pub tasks: Seq<TaskView<C>>,
    /// Whether the spawner may still submit tasks.
    pub spawner_connected: bool,
}

impl<C> ExecutorView<C> {
    /// The executor that [`new_executor_and_spawner`] returns.
    pub open spec fn initial() -> Self {
        ExecutorView {
            queue: WorkQueueView::empty(MAX_QUEUED_TASKS as nat),
            tasks: Seq::empty(),
            spawner_connected: true,
        }
    }

    /// The work queue is within its capacity and names existing tasks only;
    /// an executor that was shut down holds no computation and accepts none.
    pub open spec fn inv(self) -> bool {
        &&& self.queue.inv()
        &&& self.tasks.len() <= usize::MAX
        &&& forall|k: int|
            0 <= k < self.queue.items.len() ==> (#[trigger] self.queue.items[k]) < self.tasks.len()
        &&& self.queue.closed ==> !self.spawner_connected && all_completed(self.tasks)
    }

    /// Whether nothing is left to do and nothing can arrive.
    pub open spec fn finished(self) -> bool {
        !self.spawner_connected && all_completed(self.tasks)
    }

    /// The answer to an attempt to spawn a task.
    pub open spec fn spawn_result(self) -> Result<(), SendError> {
        if !self.spawner_connected {
            Err(SendError::Closed)
        } else {
            self.queue.send_result()
        }
    }

    /// The executor after an attempt to spawn `computation`: on success a new
    /// task holds it and is queued behind all others.
    pub open spec fn after_spawn(self, computation: C) -> Self {
        if self.spawn_result() is Ok {
            ExecutorView {
                queue: self.queue.after_send(self.tasks.len() as usize),
                tasks: self.tasks.push(TaskView::holding(computation)),
                ..self
            }
        } else {
            self
        }
    }

    /// The answer to firing the wake signal of task number `task`. Only a
    /// full queue is reported; a signal for a task that does not exist, or
    /// fired after the executor was shut down, is dropped silently.
    pub open spec fn wake_result(self, task: int) -> Result<(), SendError> {
        if 0 <= task < self.tasks.len() && self.queue.send_result() == Err::<(), SendError>(
            SendError::Full,
        ) {
            Err(SendError::Full)
        } else {
            Ok(())
        }
    }

    /// The executor after the wake signal of task number `task` was fired.
    pub open spec fn after_wake(self, task: int) -> Self {
        if 0 <= task < self.tasks.len() {
            ExecutorView { queue: self.queue.after_send(task as usize), ..self }
        } else {
            self
        }
    }

    /// The executor after the spawner has gone away.
    pub open spec fn after_disconnect(self) -> Self {
        ExecutorView { spawner_connected: false, ..self }
    }

    /// The executor after the computation of task number `task` was dropped.
    pub open spec fn after_abandon(self, task: int) -> Self {
        if 0 <= task < self.tasks.len() {
            ExecutorView { tasks: self.tasks.update(task, self.tasks[task].after_abandon()), ..self }
        } else {
            self
        }
    }

    /// The executor after it was shut down: the queue is closed and every
    /// computation is dropped.
    pub open spec fn after_shutdown(self) -> Self {
        ExecutorView {
            queue: self.queue.after_close(),
            tasks: Seq::new(self.tasks.len(), |i: int| self.tasks[i].after_abandon()),
            spawner_connected: false,
        }
    }

    /// Whether `after` is a state that a run may lead to from this one: the
    /// queue has been drained, and every task was polled as it was queued.
    pub open spec fn drained_to(self, after: Self) -> bool {
        &&& after.queue == WorkQueueView { items: Seq::<usize>::empty(), ..self.queue }
        &&& after.spawner_connected == self.spawner_connected
        &&& after.tasks.len() == self.tasks.len()
        &&& forall|i: int|
            0 <= i < self.tasks.len() ==> polled_as_queued(
                self.tasks[i],
                #[trigger] after.tasks[i],
                occurrences(self.queue.items, i),
            )
    }
}

/// One poll as a run performed it.
pub struct PollEvent<C> {
    /// What the computation answered.
    pub result: Poll<()>,
    /// The computation after the poll.
    pub computation: C,
    /// The timers after the poll.
    pub timers: Seq<TimerView>,
}

/// The executor after the oldest queue entry was taken off the queue.
pub open spec fn after_recv<C>(e: ExecutorView<C>) -> ExecutorView<C> {
    ExecutorView { queue: e.queue.after_recv(), ..e }
}

/// The executor after the queued task number `id` was polled as `event`
/// tells: the entry is off the queue, the poll is counted, and the
/// computation is back in its task exactly if it answered `Pending`.
pub open spec fn after_poll<C>(e: ExecutorView<C>, id: int, event: PollEvent<C>) -> ExecutorView<
    C,
> {
    ExecutorView {
        queue: e.queue.after_recv(),
        tasks: e.tasks.update(
            id,
            e.tasks[id].after_take().after_settle(event.computation, event.result),
        ),
        ..e
    }
}

/// Executor and timers as a run leaves them.
pub struct RunEnd<C> {
    /// The executor after the run.
    pub executor: ExecutorView<C>,
    /// The timers after the run.
    pub timers: Seq<TimerView>,
}

/// Where a run leads that starts with the given executor and timers and in
/// which the polls turn out as `events` tells, in this order; `None` if no
/// run goes that way.
///
/// The queue entries are worked off oldest first. An entry whose task holds
/// no computation is skipped. Every other entry gives its task exactly one
/// poll with the wake signal of that very task, and takes the next event.
pub open spec fn run_along<C: SuspendableComputation<Output = ()>>(
    e: ExecutorView<C>,
    timers: Seq<TimerView>,
    events: Seq<PollEvent<C>>,
) -> Option<RunEnd<C>>
    decreases e.queue.items.len(),
{
    if e.queue.items.len() == 0 {
        if events.len() == 0 {
            Some(RunEnd { executor: e, timers })
        } else {
            None
        }
    } else {
        let id = e.queue.items[0];
        if id >= e.tasks.len() || e.tasks[id as int].slot is None {
            run_along(after_recv(e), timers, events)
        } else if events.len() == 0 {
            None
        } else {
            let event = events[0];
            if e.tasks[id as int].slot->0.poll_spec(
                WakeSignal { task: id },
                timers,
                &event.computation,
                event.result,
                event.timers,
            ) {
                run_along(
                    after_poll(e, id as int, event),
                    event.timers,
                    events.subrange(1, events.len() as int),
                )
            } else {
                None
            }
        }
    }
}

/// Drives queued tasks: takes one after the other from the work queue and
/// polls it once.
pub struct Executor<C> {
    ready_queue: WorkQueue<usize>,
    tasks: Vec<Task<C>>,
    spawner_connected: bool,
}

/// Submits new root computations to an [`Executor`].
pub struct Spawner {}

impl<C> View for Executor<C> {
    type V = ExecutorView<C>;

    closed spec fn view(&self) -> ExecutorView<C> {
        ExecutorView {
            queue: self.ready_queue@,
            tasks: Seq::new(self.tasks@.len(), |i: int| self.tasks@[i]@),
            spawner_connected: self.spawner_connected,
        }
    }
}

/// An executor without tasks, together with the spawner that feeds it. The
/// work queue between the two holds up to [`MAX_QUEUED_TASKS`] tasks.
pub fn new_executor_and_spawner<C: SuspendableComputation<Output = ()>>() -> (pair: (Executor<C>, Spawner))
    ensures
        pair.0@ == ExecutorView::<C>::initial(),
        pair.0@.inv(),
{
    let executor = Executor {
        ready_queue: WorkQueue::new(MAX_QUEUED_TASKS),
        tasks: Vec::new(),
        spawner_connected: true,
    };
    assert(executor@.tasks =~= Seq::empty());
    (executor, Spawner {})
}

impl Spawner {
    /// Makes `computation` a task of `executor` and queues it for its first
    /// poll.
    ///
    /// Fails with `Full` when the work queue is at capacity, and with
    /// `Closed` when the executor was shut down or its spawner was
    /// disconnected. A failed spawn drops the computation and leaves the
    /// executor as it was.
    pub fn spawn<C: SuspendableComputation<Output = ()>>(
        &self,
        executor: &mut Executor<C>,
        computation: C,
    ) -> (result: Result<(), SendError>)
        requires
            old(executor)@.inv(),
        ensures
            result == old(executor)@.spawn_result(),
            final(executor)@ == old(executor)@.after_spawn(computation),
            final(executor)@.inv(),
    {
        if !executor.spawner_connected {
            return Err(SendError::Closed);
        }
        if executor.ready_queue.is_full() {
            return Err(SendError::Full);
        }
        let id = executor.tasks.len();
        executor.tasks.push(Task::new(computation));
        let result = executor.ready_queue.send(id);
        assert(executor@.tasks =~= old(executor)@.tasks.push(TaskView::holding(computation)));
        assert(executor.tasks.len() == executor@.tasks.len());
        result
    }

    /// Gives up the spawner: no further task can be submitted to `executor`,
    /// which may therefore finish once its tasks have.
    pub fn disconnect<C: SuspendableComputation<Output = ()>>(self, executor: &mut Executor<C>)
        requires
            old(executor)@.inv(),
        ensures
            final(executor)@ == old(executor)@.after_disconnect(),
            final(executor)@.inv(),
    {
        executor.spawner_connected = false;
    }
}

impl WakeSignal {
    /// Fires the signal: puts its task at the back of the work queue of
    /// `executor`, whether or not the task still holds a computation.
    ///
    /// A signal for a task that `executor` does not have, or fired after the
    /// executor was shut down, is dropped without effect and without error.
    /// On a full queue nothing is queued and `Full` is returned, for the
    /// caller to fire the signal again once the executor has run.
    pub fn wake_by_ref<C: SuspendableComputation<Output = ()>>(&self, executor: &mut Executor<C>) -> (result:
        Result<(), SendError>)
        requires
            old(executor)@.inv(),
        ensures
            result == old(executor)@.wake_result(self.task as int),
            final(executor)@ == old(executor)@.after_wake(self.task as int),
            final(executor)@.inv(),
    {
        if self.task >= executor.tasks.len() {
            return Ok(());
        }
        match executor.ready_queue.send(self.task) {
            Err(SendError::Full) => Err(SendError::Full),
            _ => Ok(()),
        }
    }
}

impl<C: SuspendableComputation<Output = ()>> Executor<C> {
    /// The number of tasks that wait on the work queue.
    pub fn queued(&self) -> (n: usize)
        ensures
            n == self@.queue.items.len(),
    {
        self.ready_queue.len()
    }

    /// The number of tasks spawned so far.
    pub fn task_count(&self) -> (n: usize)
        ensures
            n == self@.tasks.len(),
    {
        self.tasks.len()
    }

    /// Whether task number `task` exists and holds no computation any more.
    pub fn is_completed(&self, task: usize) -> (b: bool)
        ensures
            b == (task < self@.tasks.len() && self@.tasks[task as int].slot is None),
    {
        if task < self.tasks.len() {
            self.tasks[task].is_empty()
        } else {
            false
        }
    }

    /// Whether nothing is left to do and nothing can arrive: the spawner is
    /// gone and no task holds a computation.
    pub fn is_finished(&self) -> (b: bool)
        ensures
            b == self@.finished(),
    {
        if self.spawner_connected {
            return false;
        }
        let mut i: usize = 0;
        while i < self.tasks.len()
            invariant
                i <= self.tasks@.len(),
                forall|k: int| 0 <= k < i ==> (#[trigger] self@.tasks[k]).slot is None,
            decreases self.tasks@.len() - i,
        {
            if !self.tasks[i].is_empty() {
                assert(self@.tasks[i as int].slot is Some);
                return false;
            }
            i = i + 1;
        }
        true
    }

    /// Drops the computation of task number `task` without polling it. A
    /// wake signal fired for the task afterwards has nothing left to
    /// reschedule. Nothing happens for a task that does not exist.
    pub fn abandon(&mut self, task: usize)
        requires
            old(self)@.inv(),
        ensures
            final(self)@ == old(self)@.after_abandon(task as int),
            final(self)@.inv(),
    {
        if task < self.tasks.len() {
            self.tasks[task].abandon();
            assert(self@.tasks =~= old(self)@.tasks.update(
                task as int,
                old(self)@.tasks[task as int].after_abandon(),
            ));
            assert forall|i: int| 0 <= i < self@.tasks.len() && all_completed(
                old(self)@.tasks,
            ) implies (#[trigger] self@.tasks[i]).slot is None by {
                assert(old(self)@.tasks[i].slot is None);
            }
        }
    }

    /// Shuts the executor down: closes the work queue, discarding what is
    /// queued, and drops every computation. Spawning fails from now on and
    /// wake signals are dropped silently.
    pub fn shutdown(&mut self)
        ensures
            final(self)@ == old(self)@.after_shutdown(),
            final(self)@.inv(),
    {
        self.ready_queue.close();
        self.spawner_connected = false;
        let n = self.tasks.len();
        let mut i: usize = 0;
        while i < n
            invariant
                i <= n,
                n == self.tasks@.len(),
                self@.tasks.len() == old(self)@.tasks.len(),
                self@.queue == old(self)@.queue.after_close(),
                !self@.spawner_connected,
                forall|k: int| 0 <= k < i ==> self@.tasks[k] == old(self)@.tasks[k].after_abandon(),
                forall|k: int| i <= k < n ==> self@.tasks[k] == old(self)@.tasks[k],
            decreases n - i,
        {
            let ghost before = self@;
            self.tasks[i].abandon();
            assert forall|k: int| 0 <= k < i + 1 implies self@.tasks[k] == old(
                self,
            )@.tasks[k].after_abandon() by {
                if k < i {
                    assert(self@.tasks[k] == before.tasks[k]);
                }
            }
            assert forall|k: int| i + 1 <= k < n implies self@.tasks[k] == old(self)@.tasks[k] by {
                assert(self@.tasks[k] == before.tasks[k]);
            }
            i = i + 1;
        }
        assert(self@.tasks =~= old(self)@.after_shutdown().tasks);
    }

    /// Polls every task on the work queue, oldest first, until the queue is
    /// empty.
    ///
    /// Each queue entry gives its task one poll, with a context whose wake
    /// signal points back at that task. A computation that answers `Pending`
    /// goes back into its task, to be polled again only after a wake signal
    /// has queued the task anew; one that answers `Ready` is dropped, and its
    /// task is never polled again. An entry for a task without computation
    /// is skipped. Tasks that are not queued are not touched.
    ///
    /// The answer is `Finished` when nothing is left to do and nothing can
    /// arrive any more, and `Blocked` when the executor has to wait for a
    /// wake-up or a spawn.
    pub fn run(&mut self, timers: &mut TimerTable) -> (outcome: RunOutcome)
        requires
            old(self)@.inv(),
            old(timers).wf(),
        ensures
            exists|events: Seq<PollEvent<C>>| #[trigger]
                run_along(old(self)@, old(timers)@, events) == Some(
                    RunEnd { executor: final(self)@, timers: final(timers)@ },
                ),
            old(self)@.drained_to(final(self)@),
            outcome == RunOutcome::Finished <==> final(self)@.finished(),
            final(self)@.inv(),
            final(timers).wf(),
    {
        let ghost mut events: Seq<PollEvent<C>> = Seq::empty();
        assert forall|rest: Seq<PollEvent<C>>|
            run_along(old(self)@, old(timers)@, events + rest) == #[trigger] run_along(
                self@,
                timers@,
                rest,
            ) by {
            assert(events + rest =~= rest);
        }
        loop
            invariant
                self@.inv(),
                timers.wf(),
                old(self)@.inv(),
                forall|rest: Seq<PollEvent<C>>|
                    run_along(old(self)@, old(timers)@, events + rest) == #[trigger] run_along(
                        self@,
                        timers@,
                        rest,
                    ),
                self@.queue.capacity == old(self)@.queue.capacity,
                self@.queue.closed == old(self)@.queue.closed,
                self@.spawner_connected == old(self)@.spawner_connected,
                self@.tasks.len() == old(self)@.tasks.len(),
            ensures
                self@.queue.items.len() == 0,
            decreases self@.queue.items.len(),
        {
            let ghost before = self@;
            let ghost timers_before = timers@;
            let ghost events_before = events;
            let next = self.ready_queue.recv();
            let id = match next {
                Some(id) => id,
                None => {
                    break ;
                },
            };
            assert(id == before.queue.items[0]);
            assert(id < self.tasks@.len());
            let taken = self.tasks[id].take();
            match taken {
                Some(mut computation) => {
                    let mut cx = Context::from_waker(WakeSignal::new(id), timers);
                    let result = computation.poll(&mut cx);
                    proof {
                        events = events.push(
                            PollEvent { result, computation, timers: cx.timers@ },
                        );
                    }
                    self.tasks[id].settle(computation, result);
                },
                None => {},
            }
            proof {
                assert(self@.queue == before.queue.after_recv());
                if before.tasks[id as int].slot is None {
                    assert(self@.tasks =~= before.tasks);
                    assert(self@ == after_recv(before));
                    assert forall|rest: Seq<PollEvent<C>>|
                        run_along(old(self)@, old(timers)@, events + rest) == #[trigger] run_along(
                            self@,
                            timers@,
                            rest,
                        ) by {
                        assert(run_along(before, timers_before, rest) == run_along(
                            self@,
                            timers@,
                            rest,
                        ));
                    }
                } else {
                    let event = events.last();
                    assert(self@.tasks =~= after_poll(before, id as int, event).tasks);
                    assert(self@ == after_poll(before, id as int, event));
                    assert forall|rest: Seq<PollEvent<C>>|
                        run_along(old(self)@, old(timers)@, events + rest) == #[trigger] run_along(
                            self@,
                            timers@,
                            rest,
                        ) by {
                        let longer = seq![event] + rest;
                        assert(events + rest =~= events_before + longer);
                        assert(longer[0] == event);
                        assert(longer.subrange(1, longer.len() as int) =~= rest);
                        assert(run_along(before, timers_before, longer) == run_along(
                            self@,
                            timers@,
                            rest,
                        ));
                    }
                }
                assert forall|k: int| 0 <= k < self@.queue.items.len() implies (
                #[trigger] self@.queue.items[k]) < self@.tasks.len() by {
                    assert(self@.queue.items[k] == before.queue.items[k + 1]);
                }
                if before.queue.closed {
                    assert(all_completed(before.tasks));
                    assert forall|i: int| 0 <= i < self@.tasks.len() implies (
                    #[trigger] self@.tasks[i]).slot is None by {
                        assert(before.tasks[i].slot is None);
                    }
                }
            }
        }
        assert(self@.queue.items =~= Seq::<usize>::empty());
        proof {
            let nothing = Seq::<PollEvent<C>>::empty();
            let end = RunEnd { executor: self@, timers: timers@ };
            assert(run_along(self@, timers@, nothing) == Some(end));
            assert(events + nothing =~= events);
            assert(run_along(old(self)@, old(timers)@, events) == Some(end));
            lemma_run_polls_as_queued(old(self)@, old(timers)@, events);
        }
        if self.is_finished() {
            RunOutcome::Finished
        } else {
            RunOutcome::Blocked
        }
    }
}

} // verus!
