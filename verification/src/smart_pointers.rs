//! Owning wrappers, a quota tracker that reports through a messenger, and
//! in-place filtering of a list.
use std::ops::Deref;
use vstd::prelude::*;
use vstd::string::*;

verus! {

/// A wrapper that owns one value and hands it out by dereferencing.
pub struct MyBox<T>(pub T);

impl<T> MyBox<T> {
    /// Wraps `x`.
    pub fn new(x: T) -> (wrapped: MyBox<T>)
        ensures
            wrapped.0 == x,
    {
        MyBox(x)
    }
}

impl<T> Deref for MyBox<T> {
    type Target = T;

    /// The wrapped value.
    fn deref(&self) -> (inner: &T)
        ensures
            *inner == self.0,
    {
        &self.0
    }
}

/// A channel through which notices are sent.
pub trait Messenger {
    /// Whether sending `msg` may turn this messenger into `after`. Unless a
    /// messenger says otherwise, nothing is known of what sending does.
    open spec fn sends(&self, msg: Seq<char>, after: &Self) -> bool {
        true
    }

    /// Sends `msg`.
    fn send(&mut self, msg: &str)
        ensures
            old(self).sends(msg@, final(self)),
    ;
}

/// The notice for the case that the quota is used up.
pub const OVER_QUOTA: &'static str = "Error: You are over your quata!";

/// The notice for the case that at least nine tenths of the quota are used.
pub const OVER_90_PERCENT: &'static str = "Urgent warning: You've used up over 90% of your quata!";

/// The notice for the case that at least three quarters of the quota are
/// used.
pub const OVER_75_PERCENT: &'static str = "Warning: You've used up over 75% of your quata!";

/// Whether `value` is at least `numerator / denominator` of `max`. Nothing
/// is a share of an empty quota unless something is used.
pub open spec fn reaches(value: int, max: int, numerator: int, denominator: int) -> bool {
    if max == 0 {
        value > 0
    } else {
        value * denominator >= max * numerator
    }
}

/// The notice that a use of `value` out of `max` calls for: the gravest that
/// applies, or none below three quarters.
pub open spec fn notice_for(value: int, max: int) -> Option<&'static str> {
    if reaches(value, max, 1, 1) {
        Some(OVER_QUOTA)
    } else if reaches(value, max, 9, 10) {
        Some(OVER_90_PERCENT)
    } else if reaches(value, max, 3, 4) {
        Some(OVER_75_PERCENT)
    } else {
        None
    }
}

/// Whether reporting a use of `value` out of `max` may turn the messenger
/// `before` into `after`: the notice that the use calls for is sent, and
/// nothing happens if it calls for none.
pub open spec fn reports<T: Messenger>(before: &T, value: int, max: int, after: &T) -> bool {
    match notice_for(value, max) {
        Some(notice) => before.sends(notice@, after),
        None => *after == *before,
    }
}

/// The notice that a use of `value` out of `max` calls for.
pub fn quota_notice(value: usize, max: usize) -> (notice: Option<&'static str>)
    ensures
        notice == notice_for(value as int, max as int),
{
    let used = value as u128;
    let quota = max as u128;
    if max == 0 {
        if value > 0 {
            Some(OVER_QUOTA)
        } else {
            None
        }
    } else if used >= quota {
        Some(OVER_QUOTA)
    } else if used * 10 >= quota * 9 {
        Some(OVER_90_PERCENT)
    } else if used * 4 >= quota * 3 {
        Some(OVER_75_PERCENT)
    } else {
        None
    }
}

/// Keeps track of how much of a quota is used and sends a notice when the
/// use comes close to the quota or passes it.
pub struct LimitTracker<'a, T: Messenger> {
    pub messenger: &'a mut T,
    pub value: usize,
    pub max: usize,
}

impl<'a, T: Messenger> LimitTracker<'a, T> {
    /// A tracker for a quota of `max`, of which nothing is used yet, that
    /// reports through `messenger`.
    pub fn new(messenger: &'a mut T, max: usize) -> (tracker: LimitTracker<'a, T>)
        ensures
            *tracker.messenger == *old(messenger),
            *final(tracker.messenger) == *final(messenger),
            tracker.value == 0,
            tracker.max == max,
    {
        LimitTracker { messenger, value: 0, max }
    }

    /// Records that `value` is used, and sends the notice that this use
    /// calls for, if any.
    pub fn set_value(&mut self, value: usize)
        ensures
            final(self).value == value,
            final(self).max == old(self).max,
            reports(
                old(self).messenger,
                value as int,
                old(self).max as int,
                final(self).messenger,
            ),
            *final(final(self).messenger) == *final(old(self).messenger),
    {
        self.value = value;
        match quota_notice(self.value, self.max) {
            Some(notice) => {
                self.messenger.send(notice);
            },
            None => {},
        }
    }
}

/// A messenger that keeps what it is asked to send.
pub struct MockMessenger {
    pub sent_messages: Vec<String>,
}

impl MockMessenger {
    /// The notices kept so far, oldest first.
    pub open spec fn sent(&self) -> Seq<Seq<char>> {
        Seq::new(self.sent_messages@.len(), |i: int| self.sent_messages@[i]@)
    }

    /// A messenger that has not sent anything.
    pub fn new() -> (messenger: MockMessenger)
        ensures
            messenger.sent() == Seq::<Seq<char>>::empty(),
    {
        let messenger = MockMessenger { sent_messages: Vec::new() };
        assert(messenger.sent() =~= Seq::<Seq<char>>::empty());
        messenger
    }
}

impl Messenger for MockMessenger {
    /// Sending appends the notice to those kept.
    open spec fn sends(&self, msg: Seq<char>, after: &Self) -> bool {
        after.sent() == self.sent().push(msg)
    }

    fn send(&mut self, msg: &str) {
        self.sent_messages.push(String::from_str(msg));
        assert(self.sent() =~= old(self).sent().push(msg@));
    }
}

/// A node of a tree, with its item, its parent and its children.
pub struct TreeNode<T> {
    pub item: T,
    pub parent: Option<Box<TreeNode<T>>>,
    pub childs: Vec<TreeNode<T>>,
}

impl<T> TreeNode<T> {
    /// A node that holds `item` and has neither parent nor children.
    pub fn new(item: T) -> (node: TreeNode<T>)
        ensures
            node.item == item,
            node.parent is None,
            node.childs@.len() == 0,
    {
        TreeNode { item, parent: None, childs: Vec::new() }
    }
}

/// Something that accepts messages for delivery.
pub trait Producer {
    /// Hands `msg` over for delivery.
    fn send(&self, msg: String);
}

/// A producer that takes messages and delivers none of them.
pub struct MyProducer {
    pub messages: Vec<String>,
}

impl Producer for MyProducer {
    fn send(&self, msg: String) {
    }
}

/// Whether `i` is even.
pub fn is_even(i: i32) -> (even: bool)
    ensures
        even == (i % 2 == 0),
{
    i % 2 == 0
}

/// The even numbers of `nums`, in their order.
pub open spec fn evens(nums: Seq<i32>) -> Seq<i32> {
    nums.filter(|num: i32| num % 2 == 0)
}

/// Removes the odd numbers from `nums`, keeping the order of the others.
pub fn retain_even(nums: &mut Vec<i32>)
    ensures
        final(nums)@ == evens(old(nums)@),
{
    let mut kept: usize = 0;
    let mut i: usize = 0;
    proof {
        reveal(Seq::filter);
        assert(old(nums)@.subrange(0, 0) =~= Seq::<i32>::empty());
        assert(nums@.subrange(0, 0) =~= Seq::<i32>::empty());
    }
    while i < nums.len()
        invariant
            kept <= i <= nums@.len(),
            nums@.len() == old(nums)@.len(),
            nums@.subrange(0, kept as int) == evens(old(nums)@.subrange(0, i as int)),
            forall|k: int| i <= k < nums@.len() ==> nums@[k] == old(nums)@[k],
        decreases nums@.len() - i,
    {
        let ghost before = nums@;
        let num = nums[i];
        if is_even(num) {
            nums[kept] = num;
            kept = kept + 1;
        }
        proof {
            reveal(Seq::filter);
            let upto = old(nums)@.subrange(0, i + 1);
            assert(upto.drop_last() =~= old(nums)@.subrange(0, i as int));
            assert(upto.last() == num);
            if num % 2 == 0 {
                assert(nums@.subrange(0, kept as int) =~= before.subrange(0, kept - 1).push(num));
            } else {
                assert(nums@.subrange(0, kept as int) =~= before.subrange(0, kept as int));
            }
        }
        i = i + 1;
    }
    assert(old(nums)@.subrange(0, i as int) =~= old(nums)@);
    nums.truncate(kept);
}

} // verus!
