use course::smart_pointers::{
    is_even, quota_notice, retain_even, LimitTracker, Messenger, MockMessenger, MyBox, MyProducer,
    Producer, TreeNode,
};
use std::cell::RefCell;
use std::rc::Rc;

fn hello(str: &str) {
    println!("hello {}", str);
}

#[test]
fn smart_pointers_deref_taint_test() {
    let x = 5;
    let y = &x;
    assert_eq!(5, x);
    assert_eq!(5, *y);

    let x = 5;
    let y = Box::new(x);
    assert_eq!(5, x);
    assert_eq!(5, *y);

    let x = 5;
    let y = MyBox::new(x);
    assert_eq!(5, x);
    assert_eq!(5, *y);

    hello("rust");

    let java = MyBox::new(String::from("java"));
    hello(&java);
}

#[test]
fn smart_pointers_it_sends_an_over_75_percent_warning_message() {
    let mut mock_messenger = MockMessenger::new();
    {
        let mut limit_tracker = LimitTracker::new(&mut mock_messenger, 100);
        limit_tracker.set_value(80);
    }
    assert_eq!(mock_messenger.sent_messages.len(), 1);
}

#[test]
fn it_sends_an_over_75_percent_warning_message() {
    let mut mock_messenger = MockMessenger::new();
    {
        let mut limit_tracker = LimitTracker::new(&mut mock_messenger, 100);
        limit_tracker.set_value(80);
    }
    assert_eq!(mock_messenger.sent_messages.len(), 1);
}

struct CountingMessenger {
    sent: usize,
}

impl Messenger for CountingMessenger {
    fn send(&mut self, _msg: &str) {
        self.sent += 1;
    }
}

#[test]
fn a_messenger_of_ones_own_is_told_too() {
    let mut messenger = CountingMessenger { sent: 0 };
    {
        let mut tracker = LimitTracker::new(&mut messenger, 10);
        tracker.set_value(7);
        tracker.set_value(8);
        tracker.set_value(10);
    }
    assert_eq!(messenger.sent, 2);
}

#[test]
fn rc_ref_cell_test() {
    let s = Rc::new(RefCell::new("hello".to_string()));
    let s1 = Rc::clone(&s);
    let s2 = Rc::clone(&s);

    s.borrow_mut().push_str("12333");

    println!("{:?}\n{:?}\n{:?}", s, s1, s2);
}

#[test]
fn self_ref_test() {
    let _s = String::from("hello");
}

#[test]
fn tracker_sends_the_gravest_notice_that_applies() {
    let mut messenger = MockMessenger::new();
    {
        let mut tracker = LimitTracker::new(&mut messenger, 100);
        assert_eq!(tracker.value, 0);
        assert_eq!(tracker.max, 100);
        tracker.set_value(74);
        tracker.set_value(75);
        tracker.set_value(89);
        tracker.set_value(90);
        tracker.set_value(99);
        tracker.set_value(100);
        tracker.set_value(250);
        assert_eq!(tracker.value, 250);
    }
    assert_eq!(
        messenger.sent_messages,
        vec![
            "Warning: You've used up over 75% of your quata!",
            "Warning: You've used up over 75% of your quata!",
            "Urgent warning: You've used up over 90% of your quata!",
            "Urgent warning: You've used up over 90% of your quata!",
            "Error: You are over your quata!",
            "Error: You are over your quata!",
        ]
    );
}

#[test]
fn notices_follow_the_share_of_the_quota() {
    assert_eq!(quota_notice(0, 100), None);
    assert_eq!(quota_notice(74, 100), None);
    assert_eq!(quota_notice(3, 4), Some("Warning: You've used up over 75% of your quata!"));
    assert_eq!(quota_notice(9, 10), Some("Urgent warning: You've used up over 90% of your quata!"));
    assert_eq!(quota_notice(10, 10), Some("Error: You are over your quata!"));
    assert_eq!(quota_notice(0, 0), None);
    assert_eq!(quota_notice(1, 0), Some("Error: You are over your quata!"));
    assert_eq!(quota_notice(usize::MAX, usize::MAX), Some("Error: You are over your quata!"));
    assert_eq!(
        quota_notice(usize::MAX - 1, usize::MAX),
        Some("Urgent warning: You've used up over 90% of your quata!")
    );
}

#[test]
fn messenger_keeps_what_it_sends() {
    let mut messenger = MockMessenger::new();
    messenger.send("one");
    messenger.send("two");
    assert_eq!(messenger.sent_messages, vec!["one", "two"]);
}

#[test]
fn retain_even_keeps_the_even_numbers_in_order() {
    let mut nums = vec![1, 2, 3, 4, -6, 7, 0, -1];
    retain_even(&mut nums);
    assert_eq!(nums, vec![2, 4, -6, 0]);

    let mut odd = vec![1, 3, 5];
    retain_even(&mut odd);
    assert!(odd.is_empty());

    let mut none: Vec<i32> = vec![];
    retain_even(&mut none);
    assert!(none.is_empty());

    assert!(is_even(0));
    assert!(is_even(-2));
    assert!(!is_even(-1));
    assert!(!is_even(i32::MAX));
    assert!(is_even(i32::MIN));
}

#[test]
fn tree_node_starts_alone() {
    let node = TreeNode::new("root");
    assert_eq!(node.item, "root");
    assert!(node.parent.is_none());
    assert!(node.childs.is_empty());
}

#[test]
fn my_producer_delivers_nothing() {
    let producer = MyProducer { messages: vec![] };
    producer.send(String::from("hello"));
    assert!(producer.messages.is_empty());
}
