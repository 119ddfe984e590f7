//! The handle through which a suspended task asks to be polled again.
use vstd::prelude::*;

verus! {

/// A wake signal bound to one task of an executor.
///
/// The signal is a plain value: it can be copied, stored while the task is
/// suspended, and handed to another party. Firing it puts its task back on
/// the executor's work queue; it never keeps the task alive by itself.
#[derive(Debug, Clone, Copy, PartialEq, Eq, Structural)]
pub struct WakeSignal {
    /// The position of the task in its executor's task table.
    pub task: usize,
}

impl WakeSignal {
    /// The signal that reschedules task number `task`.
    pub fn new(task: usize) -> (signal: Self)
        ensures
            signal.task == task,
    {
        WakeSignal { task }
    }

    /// The number of the task this signal reschedules.
    pub fn task(&self) -> (task: usize)
        ensures
            task == self.task,
    {
        self.task
    }
}

} // verus!
