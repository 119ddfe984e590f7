//! The result of polling a suspendable computation.
use vstd::prelude::*;

verus! {

/// Outcome of a single non-blocking readiness check: either the computation
/// has finished with a value, or it is not ready yet.
#[derive(Debug, PartialEq, Eq)]
pub enum Poll<T> {
    Ready(T),
    Pending,
}

impl<T> Poll<T> {
    /// True exactly for `Ready`.
    pub fn is_ready(&self) -> (b: bool)
        ensures
            b == (*self is Ready),
    {
        match self {
            Poll::Ready(_) => true,
            Poll::Pending => false,
        }
    }

    /// True exactly for `Pending`.
    pub fn is_pending(&self) -> (b: bool)
        ensures
            b == (*self is Pending),
    {
        match self {
            Poll::Ready(_) => false,
            Poll::Pending => true,
        }
    }
}

} // verus!
