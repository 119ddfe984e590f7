//! What holds of every run of the executor.
use crate::computation::SuspendableComputation;
use crate::executor::{
    after_poll, after_recv, all_completed, occurrences, polled_as_queued, run_along, ExecutorView,
    PollEvent, RunEnd,
};
use crate::queue::SendError;
use crate::task::TaskView;
use crate::timer::{
    lemma_firing_timer_releases_its_signal, signals_released, timers_after_advance,
    timers_after_poll, TimerFuture, TimerView,
};
use crate::wake::WakeSignal;
use vstd::prelude::*;

verus! {

/// `occurrences` counts the first item of a sequence like any other.
pub proof fn lemma_occurrences_front(items: Seq<usize>, task: int)
    requires
        items.len() > 0,
    ensures
        occurrences(items, task) == occurrences(items.subrange(1, items.len() as int), task)
            + if items[0] == task {
            1nat
        } else {
            0nat
        },
    decreases items.len(),
{
    let tail = items.subrange(1, items.len() as int);
    if items.len() == 1 {
        assert(items.drop_last() =~= Seq::<usize>::empty());
        assert(tail =~= Seq::<usize>::empty());
    } else {
        lemma_occurrences_front(items.drop_last(), task);
        assert(items.drop_last().subrange(1, items.len() - 1) =~= tail.drop_last());
        assert(tail.last() == items.last());
        assert(items.drop_last()[0] == items[0]);
    }
}

/// The only item of a sequence is counted once.
pub proof fn lemma_occurrences_single(items: Seq<usize>, task: usize)
    requires
        items =~= seq![task],
    ensures
        occurrences(items, task as int) == 1,
{
    assert(items.drop_last() =~= Seq::<usize>::empty());
    assert(occurrences(items.drop_last(), task as int) == 0);
    assert(items.last() == task);
}

/// An item that does not occur in a sequence is counted zero times.
pub proof fn lemma_occurrences_absent(items: Seq<usize>, task: int)
    requires
        forall|k: int| 0 <= k < items.len() ==> items[k] != task,
    ensures
        occurrences(items, task) == 0,
    decreases items.len(),
{
    if items.len() > 0 {
        lemma_occurrences_absent(items.drop_last(), task);
    }
}

/// Every run drains the queue and polls each task as it was queued: at most
/// once per queue entry, never without one, and never after the task has
/// lost its computation. It keeps the executor well-formed.
pub proof fn lemma_run_polls_as_queued<C: SuspendableComputation<Output = ()>>(
    e: ExecutorView<C>,
    timers: Seq<TimerView>,
    events: Seq<PollEvent<C>>,
)
    requires
        e.inv(),
        run_along(e, timers, events) is Some,
    ensures
        e.drained_to(run_along(e, timers, events)->0.executor),
        run_along(e, timers, events)->0.executor.inv(),
    decreases e.queue.items.len(),
{
    let end = run_along(e, timers, events)->0.executor;
    if e.queue.items.len() == 0 {
        assert(e.queue.items =~= Seq::<usize>::empty());
    } else {
        let id = e.queue.items[0];
        let tail = e.queue.items.subrange(1, e.queue.items.len() as int);
        assert(id < e.tasks.len());
        assert forall|k: int| 0 <= k < tail.len() implies (#[trigger] tail[k]) < e.tasks.len() by {
            assert(tail[k] == e.queue.items[k + 1]);
        }
        if e.tasks[id as int].slot is None {
            let next = after_recv(e);
            lemma_run_polls_as_queued(next, timers, events);
            assert forall|i: int| 0 <= i < e.tasks.len() implies polled_as_queued(
                e.tasks[i],
                #[trigger] end.tasks[i],
                occurrences(e.queue.items, i),
            ) by {
                lemma_occurrences_front(e.queue.items, i);
                assert(polled_as_queued(next.tasks[i], end.tasks[i], occurrences(tail, i)));
            }
        } else {
            let event = events[0];
            let next = after_poll(e, id as int, event);
            assert(next.inv()) by {
                if e.queue.closed {
                    assert(e.tasks[id as int].slot is None);
                }
            }
            lemma_run_polls_as_queued(
                next,
                event.timers,
                events.subrange(1, events.len() as int),
            );
            assert forall|i: int| 0 <= i < e.tasks.len() implies polled_as_queued(
                e.tasks[i],
                #[trigger] end.tasks[i],
                occurrences(e.queue.items, i),
            ) by {
                lemma_occurrences_front(e.queue.items, i);
                assert(polled_as_queued(next.tasks[i], end.tasks[i], occurrences(tail, i)));
            }
        }
    }
}

/// No poll without a wake-up: a run that finds the queue empty polls
/// nothing and changes nothing, neither a task nor a timer. A suspended task
/// therefore costs nothing until its wake signal is fired.
pub proof fn lemma_idle_run_changes_nothing<C: SuspendableComputation<Output = ()>>(
    e: ExecutorView<C>,
    timers: Seq<TimerView>,
    events: Seq<PollEvent<C>>,
)
    requires
        e.queue.items.len() == 0,
        run_along(e, timers, events) is Some,
    ensures
        events.len() == 0,
        run_along(e, timers, events) == Some(RunEnd { executor: e, timers }),
{
}

/// A run leaves every suspended computation off the queue: whatever the
/// polls answer, the queue is empty afterwards, so that a second run
/// directly after the first polls nothing.
pub proof fn lemma_run_does_not_requeue<C: SuspendableComputation<Output = ()>>(
    e: ExecutorView<C>,
    timers: Seq<TimerView>,
    events: Seq<PollEvent<C>>,
    again: Seq<PollEvent<C>>,
)
    requires
        e.inv(),
        run_along(e, timers, events) is Some,
        run_along(
            run_along(e, timers, events)->0.executor,
            run_along(e, timers, events)->0.timers,
            again,
        ) is Some,
    ensures
        run_along(e, timers, events)->0.executor.queue.items.len() == 0,
        again.len() == 0,
        run_along(
            run_along(e, timers, events)->0.executor,
            run_along(e, timers, events)->0.timers,
            again,
        ) == run_along(e, timers, events),
{
    lemma_run_polls_as_queued(e, timers, events);
}

/// One wake-up, one poll: when the wake signal of a suspended task is fired
/// on an idle executor, the next run polls that task exactly once and
/// touches no other task.
pub proof fn lemma_wake_gives_one_poll<C: SuspendableComputation<Output = ()>>(
    e: ExecutorView<C>,
    timers: Seq<TimerView>,
    task: int,
    events: Seq<PollEvent<C>>,
)
    requires
        e.inv(),
        e.queue.items.len() == 0,
        e.queue.send_result() is Ok,
        0 <= task < e.tasks.len(),
        e.tasks[task].slot is Some,
        run_along(e.after_wake(task), timers, events) is Some,
    ensures
        run_along(e.after_wake(task), timers, events)->0.executor.tasks[task].polls
            == e.tasks[task].polls + 1,
        forall|i: int|
            0 <= i < e.tasks.len() && i != task ==> run_along(
                e.after_wake(task),
                timers,
                events,
            )->0.executor.tasks[i] == e.tasks[i],
{
    let woken = e.after_wake(task);
    let end = run_along(woken, timers, events)->0.executor;
    assert(woken.queue.items =~= seq![task as usize]);
    lemma_run_polls_as_queued(woken, timers, events);
    lemma_occurrences_single(woken.queue.items, task as usize);
    assert(polled_as_queued(woken.tasks[task], end.tasks[task], 1));
    assert forall|i: int| 0 <= i < e.tasks.len() && i != task implies end.tasks[i]
        == e.tasks[i] by {
        lemma_occurrences_absent(woken.queue.items, i);
        assert(polled_as_queued(woken.tasks[i], end.tasks[i], 0));
    }
}

/// A task that has completed or was abandoned is never polled again,
/// however often its wake signal is fired.
pub proof fn lemma_completed_task_is_left_alone<C: SuspendableComputation<Output = ()>>(
    e: ExecutorView<C>,
    timers: Seq<TimerView>,
    task: int,
    events: Seq<PollEvent<C>>,
)
    requires
        e.inv(),
        0 <= task < e.tasks.len(),
        e.tasks[task].slot is None,
        run_along(e, timers, events) is Some,
    ensures
        run_along(e, timers, events)->0.executor.tasks[task] == e.tasks[task],
{
    lemma_run_polls_as_queued(e, timers, events);
    let end = run_along(e, timers, events)->0.executor;
    assert(polled_as_queued(e.tasks[task], end.tasks[task], occurrences(e.queue.items, task)));
}

/// Giving up the spawner loses no task: everything queued before is still
/// queued, the next run drains all of it, and that run finishes the
/// executor exactly if no task is left suspended.
pub proof fn lemma_run_after_disconnect<C: SuspendableComputation<Output = ()>>(
    e: ExecutorView<C>,
    timers: Seq<TimerView>,
    events: Seq<PollEvent<C>>,
)
    requires
        e.inv(),
        run_along(e.after_disconnect(), timers, events) is Some,
    ensures
        e.after_disconnect().queue == e.queue,
        e.after_disconnect().tasks == e.tasks,
        e.after_disconnect().inv(),
        run_along(e.after_disconnect(), timers, events)->0.executor.queue.items.len() == 0,
        run_along(e.after_disconnect(), timers, events)->0.executor.finished() <==> all_completed(
            run_along(e.after_disconnect(), timers, events)->0.executor.tasks,
        ),
        forall|i: int|
            0 <= i < e.tasks.len() ==> polled_as_queued(
                e.tasks[i],
                #[trigger] run_along(e.after_disconnect(), timers, events)->0.executor.tasks[i],
                occurrences(e.queue.items, i),
            ),
{
    lemma_run_polls_as_queued(e.after_disconnect(), timers, events);
}

/// An executor that has finished stays finished: a run polls nothing, however
/// many wake signals were fired in the meantime, and changes neither a task
/// nor a timer.
pub proof fn lemma_finished_is_final<C: SuspendableComputation<Output = ()>>(
    e: ExecutorView<C>,
    timers: Seq<TimerView>,
    events: Seq<PollEvent<C>>,
)
    requires
        e.inv(),
        e.finished(),
        run_along(e, timers, events) is Some,
    ensures
        events.len() == 0,
        run_along(e, timers, events)->0.executor.tasks == e.tasks,
        run_along(e, timers, events)->0.executor.finished(),
        run_along(e, timers, events)->0.timers == timers,
    decreases e.queue.items.len(),
{
    if e.queue.items.len() > 0 {
        let id = e.queue.items[0];
        let tail = e.queue.items.subrange(1, e.queue.items.len() as int);
        assert(id < e.tasks.len());
        assert(e.tasks[id as int].slot is None);
        assert forall|k: int| 0 <= k < tail.len() implies (#[trigger] tail[k]) < e.tasks.len() by {
            assert(tail[k] == e.queue.items[k + 1]);
        }
        lemma_finished_is_final(after_recv(e), timers, events);
    }
}

/// Abandoning the last suspended task lets the executor finish: if the
/// spawner is gone and every other task has completed, nothing is left to
/// wait for once the computation of `task` is dropped.
pub proof fn lemma_abandoning_the_last_task_finishes<C: SuspendableComputation<Output = ()>>(
    e: ExecutorView<C>,
    task: int,
)
    requires
        e.inv(),
        !e.spawner_connected,
        0 <= task < e.tasks.len(),
        forall|i: int| 0 <= i < e.tasks.len() && i != task ==> (#[trigger] e.tasks[i]).slot is None,
    ensures
        e.after_abandon(task).inv(),
        e.after_abandon(task).finished(),
        e.after_abandon(task).queue == e.queue,
{
    let left = e.after_abandon(task);
    assert forall|i: int| 0 <= i < left.tasks.len() implies (#[trigger] left.tasks[i]).slot
        is None by {
        if i != task {
            assert(e.tasks[i].slot is None);
        }
    }
}

/// A shut-down executor holds nothing and takes nothing: it has finished,
/// every wake signal fired afterwards is dropped without effect and without
/// error, and every spawn is refused.
pub proof fn lemma_shutdown_is_final<C: SuspendableComputation<Output = ()>>(
    e: ExecutorView<C>,
    task: int,
    computation: C,
)
    requires
        e.inv(),
    ensures
        e.after_shutdown().inv(),
        e.after_shutdown().finished(),
        e.after_shutdown().queue.items.len() == 0,
        e.after_shutdown().wake_result(task) is Ok,
        e.after_shutdown().after_wake(task) == e.after_shutdown(),
        e.after_shutdown().spawn_result() == Err::<(), SendError>(SendError::Closed),
        e.after_shutdown().after_spawn(computation) == e.after_shutdown(),
{
}

/// Whether the timer that `future` waits for exists and has completed.
pub open spec fn timer_is_up(future: TimerFuture, timers: Seq<TimerView>) -> bool {
    0 <= future.id() < timers.len() && timers[future.id()].state.completed
}

/// Tasks that wait for timers complete as soon as they are polled after
/// their timers have: if the timer of every queued task is up, a run
/// completes all of these tasks, each with a single poll, and leaves the
/// timers as they are.
pub proof fn lemma_elapsed_timers_complete_their_tasks(
    e: ExecutorView<TimerFuture>,
    timers: Seq<TimerView>,
    events: Seq<PollEvent<TimerFuture>>,
)
    requires
        e.inv(),
        run_along(e, timers, events) is Some,
        forall|k: int|
            0 <= k < e.queue.items.len() && e.tasks[e.queue.items[k] as int].slot is Some
                ==> timer_is_up(
                (#[trigger] e.tasks[e.queue.items[k] as int]).slot->0,
                timers,
            ),
    ensures
        run_along(e, timers, events)->0.timers == timers,
        forall|k: int|
            0 <= k < e.queue.items.len() ==> (#[trigger] run_along(
                e,
                timers,
                events,
            )->0.executor.tasks[e.queue.items[k] as int]).slot is None,
    decreases e.queue.items.len(),
{
    if e.queue.items.len() > 0 {
        let end = run_along(e, timers, events)->0;
        let id = e.queue.items[0];
        let tail = e.queue.items.subrange(1, e.queue.items.len() as int);
        assert(id < e.tasks.len());
        assert forall|k: int| 0 <= k < tail.len() implies (#[trigger] tail[k]) < e.tasks.len() by {
            assert(tail[k] == e.queue.items[k + 1]);
        }
        let next = if e.tasks[id as int].slot is None {
            after_recv(e)
        } else {
            after_poll(e, id as int, events[0])
        };
        let rest = if e.tasks[id as int].slot is None {
            events
        } else {
            events.subrange(1, events.len() as int)
        };
        if e.tasks[id as int].slot is Some {
            assert(timer_is_up(e.tasks[e.queue.items[0] as int].slot->0, timers));
            assert(events[0].result is Ready);
            assert(events[0].timers == timers);
            assert(next.inv()) by {
                if e.queue.closed {
                    assert(e.tasks[id as int].slot is None);
                }
            }
        }
        assert(next.tasks[id as int].slot is None);
        assert forall|k: int|
            0 <= k < next.queue.items.len() && next.tasks[next.queue.items[k] as int].slot
                is Some implies timer_is_up(
            (#[trigger] next.tasks[next.queue.items[k] as int]).slot->0,
            timers,
        ) by {
            assert(next.queue.items[k] == e.queue.items[k + 1]);
            assert(next.tasks[next.queue.items[k] as int] == e.tasks[e.queue.items[k + 1] as int]);
        }
        lemma_run_polls_as_queued(next, timers, rest);
        lemma_elapsed_timers_complete_their_tasks(next, timers, rest);
        assert forall|k: int| 0 <= k < e.queue.items.len() implies (
        #[trigger] end.executor.tasks[e.queue.items[k] as int]).slot is None by {
            if k == 0 {
                assert(polled_as_queued(
                    next.tasks[id as int],
                    end.executor.tasks[id as int],
                    occurrences(next.queue.items, id as int),
                ));
            } else {
                assert(e.queue.items[k] == next.queue.items[k - 1]);
                assert(end.executor.tasks[next.queue.items[k - 1] as int].slot is None);
            }
        }
    }
}

/// A task that waits for a running timer is suspended by its poll, and the
/// wake signal left with the timer is the signal of that very task: when the
/// timer completes, the same task is queued again.
pub proof fn lemma_suspended_task_leaves_its_own_signal(
    e: ExecutorView<TimerFuture>,
    timers: Seq<TimerView>,
    task: usize,
    events: Seq<PollEvent<TimerFuture>>,
)
    requires
        e.inv(),
        e.queue.items == seq![task],
        e.tasks[task as int].slot is Some,
        0 <= e.tasks[task as int].slot->0.id() < timers.len(),
        !timers[e.tasks[task as int].slot->0.id()].state.completed,
        run_along(e, timers, events) is Some,
    ensures
        run_along(e, timers, events)->0.executor.tasks[task as int].slot
            == e.tasks[task as int].slot,
        run_along(e, timers, events)->0.timers == timers_after_poll(
            timers,
            e.tasks[task as int].slot->0.id(),
            WakeSignal { task },
        ),
        run_along(e, timers, events)->0.timers[e.tasks[task as int].slot->0.id()].state.waker
            == Some(WakeSignal { task }),
        run_along(e, timers, events)->0.executor.queue.items.len() == 0,
{
    assert(e.queue.items[0] == task);
    assert(task < e.tasks.len());
    let next = after_poll(e, task as int, events[0]);
    let rest = events.subrange(1, events.len() as int);
    assert(next.queue.items =~= Seq::<usize>::empty());
    assert(run_along(e, timers, events) == run_along(next, events[0].timers, rest));
    assert(run_along(next, events[0].timers, rest) == Some(
        RunEnd { executor: next, timers: events[0].timers },
    ));
}

/// A task that waits for a timer completes once the delay is over, with
/// exactly two polls, whatever the delay, zero included.
///
/// The first run polls the task, which registers its wake signal with the
/// running timer and suspends. When at least the outstanding delay has
/// passed, the timer releases that signal. Firing it queues the task again,
/// and the next run polls the task a second time, finds the timer completed,
/// and drops the task for good.
pub proof fn lemma_timer_task_completes_after_its_delay(
    e: ExecutorView<TimerFuture>,
    timers: Seq<TimerView>,
    task: usize,
    elapsed: nat,
    first: Seq<PollEvent<TimerFuture>>,
    second: Seq<PollEvent<TimerFuture>>,
)
    requires
        e.inv(),
        e.queue.items == seq![task],
        e.tasks[task as int].slot is Some,
        0 <= e.tasks[task as int].slot->0.id() < timers.len(),
        !timers[e.tasks[task as int].slot->0.id()].state.completed,
        timers[e.tasks[task as int].slot->0.id()].remaining <= elapsed,
        run_along(e, timers, first) is Some,
        run_along(
            run_along(e, timers, first)->0.executor.after_wake(task as int),
            timers_after_advance(run_along(e, timers, first)->0.timers, elapsed),
            second,
        ) is Some,
    ensures
        run_along(e, timers, first)->0.executor.tasks[task as int].slot is Some,
        signals_released(run_along(e, timers, first)->0.timers, elapsed).contains(
            WakeSignal { task },
        ),
        run_along(
            run_along(e, timers, first)->0.executor.after_wake(task as int),
            timers_after_advance(run_along(e, timers, first)->0.timers, elapsed),
            second,
        )->0.executor.tasks[task as int] == (TaskView::<TimerFuture> {
            slot: None,
            polls: e.tasks[task as int].polls + 2,
        }),
        run_along(
            run_along(e, timers, first)->0.executor.after_wake(task as int),
            timers_after_advance(run_along(e, timers, first)->0.timers, elapsed),
            second,
        )->0.executor.queue.items.len() == 0,
{
    let future = e.tasks[task as int].slot->0;
    let mid = run_along(e, timers, first)->0;
    assert(e.queue.items[0] == task);
    assert(task < e.tasks.len());
    lemma_suspended_task_leaves_its_own_signal(e, timers, task, first);
    lemma_run_polls_as_queued(e, timers, first);
    lemma_occurrences_single(e.queue.items, task);
    assert(polled_as_queued(e.tasks[task as int], mid.executor.tasks[task as int], 1));
    assert(mid.timers[future.id()].fires(elapsed));
    lemma_firing_timer_releases_its_signal(mid.timers, elapsed, future.id());

    let later = timers_after_advance(mid.timers, elapsed);
    let woken = mid.executor.after_wake(task as int);
    let end = run_along(woken, later, second)->0;
    assert(!e.queue.closed) by {
        if e.queue.closed {
            assert(e.tasks[task as int].slot is None);
        }
    }
    assert(e.queue.capacity >= 1);
    assert(mid.executor.queue.send_result() is Ok);
    assert(woken.queue.items =~= seq![task]);
    assert(woken.inv());
    assert(timer_is_up(future, later));
    assert forall|k: int|
        0 <= k < woken.queue.items.len() && woken.tasks[woken.queue.items[k] as int].slot
            is Some implies timer_is_up(
        (#[trigger] woken.tasks[woken.queue.items[k] as int]).slot->0,
        later,
    ) by {
        assert(woken.queue.items[k] == task);
    }
    lemma_elapsed_timers_complete_their_tasks(woken, later, second);
    assert(end.executor.tasks[woken.queue.items[0] as int].slot is None);
    lemma_run_polls_as_queued(woken, later, second);
    lemma_occurrences_single(woken.queue.items, task);
    assert(polled_as_queued(woken.tasks[task as int], end.executor.tasks[task as int], 1));
}

} // verus!
