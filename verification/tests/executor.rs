use course::computation::{BoxedComputation, Context, SuspendableComputation};
use course::executor::{new_executor_and_spawner, RunOutcome, MAX_QUEUED_TASKS};
use course::poll::Poll;
use course::queue::SendError;
use course::timer::{TimerFuture, TimerTable};
use course::wake::WakeSignal;
use std::cell::{Cell, RefCell};
use std::rc::Rc;

type Log = Rc<RefCell<Vec<String>>>;

/// Writes a line, waits for a timer and writes another line.
struct WriteWaitWrite {
    before: &'static str,
    duration: u64,
    after: &'static str,
    timer: Option<TimerFuture>,
    log: Log,
}

impl WriteWaitWrite {
    fn boxed(before: &'static str, duration: u64, after: &'static str, log: &Log) -> BoxedComputation {
        BoxedComputation::new(WriteWaitWrite {
            before,
            duration,
            after,
            timer: None,
            log: log.clone(),
        })
    }
}

impl SuspendableComputation for WriteWaitWrite {
    type Output = ();

    fn poll(&mut self, cx: &mut Context<'_>) -> Poll<()> {
        if self.timer.is_none() {
            println!("{}", self.before);
            self.log.borrow_mut().push(self.before.to_string());
            self.timer = Some(TimerFuture::new(self.duration, cx.timers));
        }
        match self.timer.as_mut().unwrap().poll(cx) {
            Poll::Ready(()) => {
                println!("{}", self.after);
                self.log.borrow_mut().push(self.after.to_string());
                Poll::Ready(())
            }
            Poll::Pending => Poll::Pending,
        }
    }
}

/// Writes a line and is done.
struct WriteOnce {
    line: &'static str,
    log: Log,
}

impl SuspendableComputation for WriteOnce {
    type Output = ();

    fn poll(&mut self, _cx: &mut Context<'_>) -> Poll<()> {
        println!("{}", self.line);
        self.log.borrow_mut().push(self.line.to_string());
        Poll::Ready(())
    }
}

/// Never becomes ready; counts its polls and remembers the wake signals it
/// was handed.
struct Never {
    polls: Rc<Cell<u32>>,
    signals: Rc<RefCell<Vec<WakeSignal>>>,
}

impl SuspendableComputation for Never {
    type Output = ();

    fn poll(&mut self, cx: &mut Context<'_>) -> Poll<()> {
        self.polls.set(self.polls.get() + 1);
        self.signals.borrow_mut().push(cx.waker());
        Poll::Pending
    }
}

fn lines(log: &Log) -> Vec<String> {
    log.borrow().clone()
}

#[test]
fn test_timer_future() {
    let (mut executor, spawner) = new_executor_and_spawner();
    let mut timers = TimerTable::new();
    let log: Log = Rc::new(RefCell::new(Vec::new()));
    spawner.spawn(&mut executor, WriteWaitWrite::boxed("howdy", 2000, "done!", &log)).unwrap();

    spawner.disconnect(&mut executor);

    assert_eq!(executor.run(&mut timers), RunOutcome::Blocked);
    assert_eq!(lines(&log), vec!["howdy"]);
    for signal in timers.advance(2000) {
        signal.wake_by_ref(&mut executor).unwrap();
    }
    assert_eq!(executor.run(&mut timers), RunOutcome::Finished);
    assert_eq!(lines(&log), vec!["howdy", "done!"]);
}

#[test]
fn a_and_c_are_written_before_b_and_b_only_after_the_delay() {
    let (mut executor, spawner) = new_executor_and_spawner();
    let mut timers = TimerTable::new();
    let log: Log = Rc::new(RefCell::new(Vec::new()));
    spawner.spawn(&mut executor, WriteWaitWrite::boxed("A", 50, "B", &log)).unwrap();
    spawner
        .spawn(&mut executor, BoxedComputation::new(WriteOnce { line: "C", log: log.clone() }))
        .unwrap();
    spawner.disconnect(&mut executor);

    assert_eq!(executor.run(&mut timers), RunOutcome::Blocked);
    assert_eq!(lines(&log), vec!["A", "C"]);
    assert!(executor.is_completed(1));
    assert!(!executor.is_completed(0));

    assert!(timers.advance(49).is_empty());
    assert_eq!(executor.run(&mut timers), RunOutcome::Blocked);
    assert_eq!(lines(&log), vec!["A", "C"]);

    let released = timers.advance(1);
    assert_eq!(released, vec![WakeSignal::new(0)]);
    assert_eq!(lines(&log), vec!["A", "C"]);
    for signal in released {
        assert_eq!(signal.wake_by_ref(&mut executor), Ok(()));
    }
    assert_eq!(executor.queued(), 1);
    assert_eq!(executor.run(&mut timers), RunOutcome::Finished);
    assert_eq!(lines(&log), vec!["A", "C", "B"]);
    assert!(executor.is_finished());
}

#[test]
fn timers_of_many_tasks_run_side_by_side() {
    let (mut executor, spawner) = new_executor_and_spawner();
    let mut timers = TimerTable::new();
    let log: Log = Rc::new(RefCell::new(Vec::new()));
    let durations = [30u64, 10, 50, 20, 40];
    for duration in durations {
        spawner.spawn(&mut executor, WriteWaitWrite::boxed("start", duration, "end", &log)).unwrap();
    }
    spawner.disconnect(&mut executor);
    assert_eq!(executor.task_count(), 5);
    assert_eq!(executor.run(&mut timers), RunOutcome::Blocked);
    assert_eq!(timers.len(), 5);

    // The longest delay, not the sum of the delays, completes them all.
    let released = timers.advance(50);
    assert_eq!(released.len(), 5);
    for signal in released {
        signal.wake_by_ref(&mut executor).unwrap();
    }
    assert_eq!(executor.run(&mut timers), RunOutcome::Finished);
    for task in 0..5 {
        assert!(executor.is_completed(task));
    }
    assert_eq!(lines(&log).iter().filter(|line| *line == "end").count(), 5);
}

#[test]
fn timers_release_their_tasks_as_their_delays_end() {
    let (mut executor, spawner) = new_executor_and_spawner();
    let mut timers = TimerTable::new();
    let log: Log = Rc::new(RefCell::new(Vec::new()));
    spawner.spawn(&mut executor, WriteWaitWrite::boxed("a", 30, "A", &log)).unwrap();
    spawner.spawn(&mut executor, WriteWaitWrite::boxed("b", 10, "B", &log)).unwrap();
    spawner.spawn(&mut executor, WriteWaitWrite::boxed("c", 20, "C", &log)).unwrap();
    executor.run(&mut timers);

    for _ in 0..3 {
        for signal in timers.advance(10) {
            signal.wake_by_ref(&mut executor).unwrap();
        }
        assert_eq!(executor.run(&mut timers), RunOutcome::Blocked);
    }
    assert_eq!(lines(&log), vec!["a", "b", "c", "B", "C", "A"]);
    spawner.disconnect(&mut executor);
    assert_eq!(executor.run(&mut timers), RunOutcome::Finished);
}

#[test]
fn a_task_that_is_not_woken_is_not_polled_again() {
    let (mut executor, spawner) = new_executor_and_spawner();
    let mut timers = TimerTable::new();
    let polls = Rc::new(Cell::new(0));
    let signals = Rc::new(RefCell::new(Vec::new()));
    spawner
        .spawn(&mut executor, Never { polls: polls.clone(), signals: signals.clone() })
        .unwrap();
    assert_eq!(polls.get(), 0);
    assert_eq!(executor.queued(), 1);

    assert_eq!(executor.run(&mut timers), RunOutcome::Blocked);
    assert_eq!(polls.get(), 1);
    assert_eq!(executor.queued(), 0);
    for _ in 0..10 {
        assert_eq!(executor.run(&mut timers), RunOutcome::Blocked);
    }
    assert_eq!(polls.get(), 1);

    // One wake-up buys one poll.
    let signal = signals.borrow()[0];
    assert_eq!(signal, WakeSignal::new(0));
    signal.wake_by_ref(&mut executor).unwrap();
    assert_eq!(executor.run(&mut timers), RunOutcome::Blocked);
    assert_eq!(polls.get(), 2);
    assert_eq!(executor.run(&mut timers), RunOutcome::Blocked);
    assert_eq!(polls.get(), 2);

    // Two wake-ups before a run buy two polls.
    signal.wake_by_ref(&mut executor).unwrap();
    signal.wake_by_ref(&mut executor).unwrap();
    assert_eq!(executor.queued(), 2);
    executor.run(&mut timers);
    assert_eq!(polls.get(), 4);

    // A suspended task keeps the executor from finishing even without spawner.
    spawner.disconnect(&mut executor);
    assert_eq!(executor.run(&mut timers), RunOutcome::Blocked);
    assert!(!executor.is_finished());
}

#[test]
fn every_task_is_handed_its_own_wake_signal() {
    let (mut executor, spawner) = new_executor_and_spawner();
    let mut timers = TimerTable::new();
    let signals = Rc::new(RefCell::new(Vec::new()));
    for _ in 0..3 {
        spawner
            .spawn(
                &mut executor,
                Never { polls: Rc::new(Cell::new(0)), signals: signals.clone() },
            )
            .unwrap();
    }
    executor.run(&mut timers);
    assert_eq!(*signals.borrow(), vec![WakeSignal::new(0), WakeSignal::new(1), WakeSignal::new(2)]);

    // Tasks are polled in the order in which they were woken.
    signals.borrow_mut().clear();
    WakeSignal::new(2).wake_by_ref(&mut executor).unwrap();
    WakeSignal::new(0).wake_by_ref(&mut executor).unwrap();
    executor.run(&mut timers);
    assert_eq!(*signals.borrow(), vec![WakeSignal::new(2), WakeSignal::new(0)]);
}

#[test]
fn run_after_disconnect_drains_the_queue_and_finishes() {
    let (mut executor, spawner) = new_executor_and_spawner();
    let mut timers = TimerTable::new();
    let log: Log = Rc::new(RefCell::new(Vec::new()));
    for line in ["one", "two", "three"] {
        spawner.spawn(&mut executor, WriteOnce { line, log: log.clone() }).unwrap();
    }
    assert!(!executor.is_finished());
    spawner.disconnect(&mut executor);
    assert_eq!(executor.queued(), 3);
    assert!(!executor.is_finished());

    assert_eq!(executor.run(&mut timers), RunOutcome::Finished);
    assert_eq!(lines(&log), vec!["one", "two", "three"]);
    assert_eq!(executor.queued(), 0);
    assert!(executor.is_finished());
    assert_eq!(executor.run(&mut timers), RunOutcome::Finished);
}

#[test]
fn run_with_a_connected_spawner_blocks_when_the_queue_is_empty() {
    let (mut executor, spawner) = new_executor_and_spawner();
    let mut timers = TimerTable::new();
    let log: Log = Rc::new(RefCell::new(Vec::new()));
    assert_eq!(executor.run(&mut timers), RunOutcome::Blocked);
    spawner.spawn(&mut executor, WriteOnce { line: "one", log: log.clone() }).unwrap();
    assert_eq!(executor.run(&mut timers), RunOutcome::Blocked);
    assert_eq!(lines(&log), vec!["one"]);
    spawner.spawn(&mut executor, WriteOnce { line: "two", log: log.clone() }).unwrap();
    spawner.disconnect(&mut executor);
    assert_eq!(executor.run(&mut timers), RunOutcome::Finished);
    assert_eq!(lines(&log), vec!["one", "two"]);
}

#[test]
fn an_abandoned_task_is_never_polled() {
    let (mut executor, spawner) = new_executor_and_spawner();
    let mut timers = TimerTable::new();
    let polls = Rc::new(Cell::new(0));
    let signals = Rc::new(RefCell::new(Vec::new()));
    spawner
        .spawn(&mut executor, Never { polls: polls.clone(), signals: signals.clone() })
        .unwrap();
    spawner.disconnect(&mut executor);
    assert_eq!(executor.run(&mut timers), RunOutcome::Blocked);
    assert_eq!(polls.get(), 1);

    executor.abandon(0);
    executor.abandon(7);
    assert!(executor.is_completed(0));
    assert!(!executor.is_completed(7));

    // A late wake-up finds nothing to reschedule.
    assert_eq!(WakeSignal::new(0).wake_by_ref(&mut executor), Ok(()));
    assert_eq!(executor.queued(), 1);
    assert_eq!(executor.run(&mut timers), RunOutcome::Finished);
    assert_eq!(polls.get(), 1);
}

#[test]
fn a_completed_task_is_not_polled_when_woken() {
    let (mut executor, spawner) = new_executor_and_spawner();
    let mut timers = TimerTable::new();
    let log: Log = Rc::new(RefCell::new(Vec::new()));
    spawner.spawn(&mut executor, WriteOnce { line: "once", log: log.clone() }).unwrap();
    executor.run(&mut timers);
    WakeSignal::new(0).wake_by_ref(&mut executor).unwrap();
    WakeSignal::new(0).wake_by_ref(&mut executor).unwrap();
    assert_eq!(executor.queued(), 2);
    executor.run(&mut timers);
    assert_eq!(executor.queued(), 0);
    assert_eq!(lines(&log), vec!["once"]);
}

#[test]
fn a_full_queue_refuses_spawns_and_wake_ups() {
    let (mut executor, spawner) = new_executor_and_spawner();
    let mut timers = TimerTable::new();
    let polls = Rc::new(Cell::new(0));
    let signals = Rc::new(RefCell::new(Vec::new()));
    assert_eq!(MAX_QUEUED_TASKS, 10_000);
    for _ in 0..MAX_QUEUED_TASKS {
        let task = Never { polls: polls.clone(), signals: signals.clone() };
        assert_eq!(spawner.spawn(&mut executor, task), Ok(()));
    }
    let one_more = Never { polls: polls.clone(), signals: signals.clone() };
    assert_eq!(spawner.spawn(&mut executor, one_more), Err(SendError::Full));
    assert_eq!(executor.task_count(), MAX_QUEUED_TASKS);
    assert_eq!(executor.queued(), MAX_QUEUED_TASKS);
    assert_eq!(WakeSignal::new(0).wake_by_ref(&mut executor), Err(SendError::Full));
    assert_eq!(executor.queued(), MAX_QUEUED_TASKS);

    executor.run(&mut timers);
    assert_eq!(polls.get(), 10_000);
    let one_more = Never { polls: polls.clone(), signals: signals.clone() };
    assert_eq!(spawner.spawn(&mut executor, one_more), Ok(()));
    assert_eq!(WakeSignal::new(0).wake_by_ref(&mut executor), Ok(()));
    assert_eq!(executor.task_count(), MAX_QUEUED_TASKS + 1);
    assert_eq!(executor.queued(), 2);
}

#[test]
fn a_wake_signal_for_an_unknown_task_is_dropped() {
    let (mut executor, spawner) = new_executor_and_spawner();
    let mut timers = TimerTable::new();
    let polls = Rc::new(Cell::new(0));
    let signals = Rc::new(RefCell::new(Vec::new()));
    spawner
        .spawn(&mut executor, Never { polls: polls.clone(), signals: signals.clone() })
        .unwrap();
    executor.run(&mut timers);
    assert_eq!(WakeSignal::new(1).wake_by_ref(&mut executor), Ok(()));
    assert_eq!(WakeSignal::new(usize::MAX).wake_by_ref(&mut executor), Ok(()));
    assert_eq!(executor.queued(), 0);
    executor.run(&mut timers);
    assert_eq!(polls.get(), 1);
}

#[test]
fn a_shut_down_executor_drops_wake_ups_and_refuses_spawns() {
    let (mut executor, spawner) = new_executor_and_spawner();
    let mut timers = TimerTable::new();
    let polls = Rc::new(Cell::new(0));
    let signals = Rc::new(RefCell::new(Vec::new()));
    for _ in 0..2 {
        spawner
            .spawn(&mut executor, Never { polls: polls.clone(), signals: signals.clone() })
            .unwrap();
    }
    executor.run(&mut timers);
    WakeSignal::new(1).wake_by_ref(&mut executor).unwrap();
    assert_eq!(executor.queued(), 1);

    executor.shutdown();
    assert_eq!(executor.queued(), 0);
    assert!(executor.is_completed(0));
    assert!(executor.is_completed(1));
    assert!(executor.is_finished());

    assert_eq!(WakeSignal::new(0).wake_by_ref(&mut executor), Ok(()));
    assert_eq!(executor.queued(), 0);
    let late = Never { polls: polls.clone(), signals: signals.clone() };
    assert_eq!(spawner.spawn(&mut executor, late), Err(SendError::Closed));
    assert_eq!(executor.task_count(), 2);
    assert_eq!(executor.run(&mut timers), RunOutcome::Finished);
    assert_eq!(polls.get(), 2);
}

#[test]
fn a_spawner_cannot_feed_an_executor_whose_spawner_is_gone() {
    let (mut executor, spawner) = new_executor_and_spawner();
    let (_other_executor, other_spawner) = new_executor_and_spawner::<Never>();
    spawner.disconnect(&mut executor);
    let task = Never { polls: Rc::new(Cell::new(0)), signals: Rc::new(RefCell::new(Vec::new())) };
    assert_eq!(other_spawner.spawn(&mut executor, task), Err(SendError::Closed));
    assert_eq!(executor.task_count(), 0);
}

#[test]
fn a_timer_task_without_boxing_runs_to_completion() {
    let (mut executor, spawner) = new_executor_and_spawner::<TimerFuture>();
    let mut timers = TimerTable::new();
    let first = TimerFuture::new(5, &mut timers);
    let second = TimerFuture::new(0, &mut timers);
    assert_eq!(first.timer_id(), 0);
    assert_eq!(second.timer_id(), 1);
    spawner.spawn(&mut executor, first).unwrap();
    spawner.spawn(&mut executor, second).unwrap();
    spawner.disconnect(&mut executor);

    assert_eq!(executor.run(&mut timers), RunOutcome::Blocked);
    assert_eq!(timers.advance(0), vec![WakeSignal::new(1)]);
    WakeSignal::new(1).wake_by_ref(&mut executor).unwrap();
    assert_eq!(executor.run(&mut timers), RunOutcome::Blocked);
    assert!(executor.is_completed(1));
    assert_eq!(timers.advance(5), vec![WakeSignal::new(0)]);
    WakeSignal::new(0).wake_by_ref(&mut executor).unwrap();
    assert_eq!(executor.run(&mut timers), RunOutcome::Finished);
}
