use async_await_future::smart_pointer::{
    quota_message, CustomerSmartPointer, ExpensiveCalculator, LimitTracker, List, Messages, MyBox,
};
use std::cell::RefCell;
use std::rc::Rc;

struct MockMessenger {
    sent_messages: RefCell<Vec<String>>,
}

impl MockMessenger {
    fn new() -> MockMessenger {
        MockMessenger {
            sent_messages: RefCell::new(vec![]),
        }
    }
}

impl Messages for MockMessenger {
    fn send(&self, message: &str) {
        self.sent_messages.borrow_mut().push(String::from(message));
    }
}

#[test]
fn it_sends_an_over_75_percent_warning_message() {
    let mock_messenger = MockMessenger::new();
    let mut limit_tracker = LimitTracker::new(&mock_messenger, 100);

    limit_tracker.set_value(80);

    assert_eq!(mock_messenger.sent_messages.borrow().len(), 1);
}

#[test]
fn limit_tracker_picks_the_right_warning() {
    let mock = MockMessenger::new();
    let mut tracker = LimitTracker::new(&mock, 100);
    tracker.set_value(50);
    tracker.set_value(75);
    tracker.set_value(90);
    tracker.set_value(100);
    tracker.set_value(150);
    assert_eq!(tracker.value, 150);
    let sent = mock.sent_messages.borrow();
    assert_eq!(
        *sent,
        vec![
            "Warning: You've used up over 75% of your quota!",
            "Urgent warning: You've used up over 90% of your quota!",
            "Error: You are over your quota!",
            "Error: You are over your quota!",
        ]
    );
}

#[test]
fn quota_message_edges() {
    assert_eq!(quota_message(0, 0), None);
    assert_eq!(quota_message(1, 0), Some("Error: You are over your quota!"));
    assert_eq!(quota_message(74, 100), None);
    assert_eq!(quota_message(89, 100), Some("Warning: You've used up over 75% of your quota!"));
}

#[test]
fn my_box_derefs_to_its_value() {
    let m = MyBox::new(5);
    assert_eq!(5, *m);
    let s = MyBox::new(String::from("Rust"));
    assert_eq!(&s[..], "Rust");
}

#[test]
fn customer_smart_pointer_keeps_data() {
    let c = CustomerSmartPointer {
        data: String::from("my stuff"),
    };
    assert_eq!(c.data, "my stuff");
}

#[test]
fn expensive_calculator_caches_values() {
    let mut calc = ExpensiveCalculator { cache: vec![7, 8, 9] };
    assert_eq!(calc.get_value(1), 8);
    assert_eq!(calc.cache.len(), 3);
    // 0*2 + 1*2 + 2*2 = 6, plus the index 10.
    assert_eq!(calc.get_value(10), 16);
    assert_eq!(calc.cache, vec![7, 8, 9, 16]);
}

#[test]
fn list_tail_of_cons_and_nil() {
    let list = List::Cons(1, Rc::new(List::Cons(2, Rc::new(List::Nil))));
    match list.tail() {
        Some(t) => assert!(matches!(**t, List::Cons(2, _))),
        None => panic!("a cons cell has a tail"),
    }
    assert!(List::Nil.tail().is_none());
}
