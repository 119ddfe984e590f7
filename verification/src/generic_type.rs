//! The largest item of a list, for numbers and for any ordered type.
use vstd::prelude::*;
use vstd::std_specs::cmp::{PartialOrdIs, PartialOrdSpec};

verus! {

/// Whether `value` occurs in `items` and no item is greater.
pub open spec fn is_largest(items: Seq<i32>, value: i32) -> bool {
    &&& items.contains(value)
    &&& forall|k: int| 0 <= k < items.len() ==> items[k] <= value
}

/// The first `count` items of `items`.
pub open spec fn first_items<T>(items: Seq<T>, count: usize) -> Seq<T> {
    items.subrange(0, count as int)
}

/// The first `count + 1` items of `items`.
pub open spec fn one_more<T>(items: Seq<T>, count: usize) -> Seq<T> {
    items.subrange(0, count + 1)
}

/// The item at position `index`.
pub open spec fn item_at<T>(items: Seq<T>, index: usize) -> T {
    items[index as int]
}

/// The largest number of `vec`, or an error message if `vec` is empty.
pub fn largest_i32(vec: &Vec<i32>) -> (result: Result<&i32, &'static str>)
    ensures
        result is Err <==> vec@.len() == 0,
        result is Err ==> result->Err_0@ == "vector is empty"@,
        result is Ok ==> is_largest(vec@, *result->Ok_0),
{
    if vec.len() > 0 {
        let mut largest = &vec[0];
        let mut i: usize = 0;
        while i < vec.len()
            invariant
                i <= vec@.len(),
                vec@.len() > 0,
                vec@.contains(*largest),
                forall|k: int| 0 <= k < i ==> vec@[k] <= *largest,
            decreases vec@.len() - i,
        {
            let element = &vec[i];
            if *element > *largest {
                largest = element;
            }
            i = i + 1;
        }
        return Ok(largest);
    }
    Err("vector is empty")
}

/// The item that a pass over `items` from front to back keeps: it starts
/// with the first item and replaces what it holds by every item that is
/// greater.
pub open spec fn champion<T: PartialOrd>(items: Seq<T>) -> T
    decreases items.len(),
{
    if items.len() <= 1 {
        items[0]
    } else {
        let earlier = champion(items.drop_last());
        if items.last().is_gt(&earlier) {
            items.last()
        } else {
            earlier
        }
    }
}

/// The largest item of `vec`, or an error message if `vec` is empty.
///
/// The result is an item of `vec`. Where the order of `T` is specified, it
/// is the item that a pass from front to back keeps, which is the first of
/// the greatest items if the order is total.
pub fn largest<T: Ord>(vec: &Vec<T>) -> (result: Result<&T, &'static str>)
    ensures
        result is Err <==> vec@.len() == 0,
        result is Err ==> result->Err_0@ == "vector is empty"@,
        result is Ok ==> vec@.contains(*result->Ok_0),
        result is Ok && T::obeys_partial_cmp_spec() ==> *result->Ok_0 == champion(vec@),
{
    if vec.len() > 0 {
        let mut largest = &vec[0];
        let mut i: usize = 0;
        while i < vec.len()
            invariant
                i <= vec@.len(),
                vec@.len() > 0,
                vec@.contains(*largest),
                i == 0 ==> *largest == vec@[0],
                i > 0 && T::obeys_partial_cmp_spec() ==> *largest == champion(
                    first_items(vec@, i),
                ),
            decreases vec@.len() - i,
        {
            let element = &vec[i];
            let ghost grown = one_more(vec@, i);
            proof {
                assert(grown.drop_last() =~= first_items(vec@, i));
                assert(grown.last() == item_at(vec@, i));
                assert(*element == item_at(vec@, i));
            }
            if *element > *largest {
                largest = element;
            }
            i = i + 1;
            assert(first_items(vec@, i) == grown);
        }
        assert(first_items(vec@, i) =~= vec@);
        return Ok(largest);
    }
    Err("vector is empty")
}

/// For numbers the pass keeps the largest: what `largest` finds in a list of
/// numbers is what `largest_i32` finds.
pub proof fn lemma_champion_of_numbers_is_largest(items: Seq<i32>)
    requires
        items.len() > 0,
    ensures
        is_largest(items, champion(items)),
    decreases items.len(),
{
    if items.len() > 1 {
        let earlier = items.drop_last();
        lemma_champion_of_numbers_is_largest(earlier);
        let kept = champion(earlier);
        let place = choose|k: int| 0 <= k < earlier.len() && earlier[k] == kept;
        assert(items[place] == kept);
        assert(items[items.len() - 1] == items.last());
        assert forall|k: int| 0 <= k < items.len() implies items[k] <= champion(items) by {
            if k < earlier.len() {
                assert(earlier[k] <= kept);
            }
        }
    } else {
        assert(items[0] == champion(items));
    }
}

/// A point of the plane.
pub struct Point<T> {
    pub x: T,
    pub y: T,
}

impl<T> Point<T> {
    /// The first coordinate.
    pub fn x(&self) -> (x: &T)
        ensures
            *x == self.x,
    {
        &self.x
    }
}

} // verus!
