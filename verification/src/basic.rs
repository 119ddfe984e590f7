//! Integer arithmetic with exact contracts.
use vstd::prelude::*;

verus! {

/// The sum of `a` and `b`. The sum has to fit into an `i32`.
pub fn sum(a: i32, b: i32) -> (total: i32)
    requires
        i32::MIN <= a + b <= i32::MAX,
    ensures
        total == a + b,
{
    a + b
}

} // verus!
