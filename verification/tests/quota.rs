use exercises::quota::{alert_level, Alert, LimitTracker, Messenger};
use std::cell::RefCell;

struct MockMessenger {
    sent: RefCell<Vec<String>>,
}

impl MockMessenger {
    fn new() -> MockMessenger {
        MockMessenger { sent: RefCell::new(Vec::new()) }
    }
}

impl Messenger for MockMessenger {
    fn send(&self, msg: &str) {
        self.sent.borrow_mut().push(String::from(msg));
    }
}

#[test]
fn send_over_70_percent_message() {
    let messenger = MockMessenger::new();
    let mut limit_tracker = LimitTracker::new(&messenger, 100);
    limit_tracker.set_value(80);
    assert_eq!(messenger.sent.borrow().len(), 1);
}

#[test]
fn each_level_sends_its_own_text() {
    let messenger = MockMessenger::new();
    let mut tracker = LimitTracker::new(&messenger, 100);
    tracker.set_value(74);
    assert_eq!(messenger.sent.borrow().len(), 0);
    tracker.set_value(75);
    tracker.set_value(90);
    tracker.set_value(100);
    tracker.set_value(250);
    tracker.set_value(0);
    assert_eq!(*messenger.sent.borrow(), vec![
        "Warning: You've used up over 75% of your quota!",
        "Critical: You've used up over 90% of your quota!",
        "Error: You've maxed out your quota!",
        "Error: You've maxed out your quota!",
    ]);
}

#[test]
fn alert_levels_start_at_their_shares() {
    assert_eq!(alert_level(0, 100), None);
    assert_eq!(alert_level(74, 100), None);
    assert_eq!(alert_level(75, 100), Some(Alert::Warning));
    assert_eq!(alert_level(89, 100), Some(Alert::Warning));
    assert_eq!(alert_level(90, 100), Some(Alert::Critical));
    assert_eq!(alert_level(99, 100), Some(Alert::Critical));
    assert_eq!(alert_level(100, 100), Some(Alert::Error));
    assert_eq!(alert_level(101, 100), Some(Alert::Error));
    assert_eq!(alert_level(3, 4), Some(Alert::Warning));
    assert_eq!(alert_level(2, 3), None);
    assert_eq!(alert_level(9, 10), Some(Alert::Critical));
}

#[test]
fn alert_levels_of_an_empty_quota() {
    assert_eq!(alert_level(0, 0), None);
    assert_eq!(alert_level(1, 0), Some(Alert::Error));
}

#[test]
fn alert_levels_of_the_largest_amounts() {
    assert_eq!(alert_level(usize::MAX, usize::MAX), Some(Alert::Error));
    assert_eq!(alert_level(usize::MAX - 1, usize::MAX), Some(Alert::Critical));
    let three_quarters = usize::MAX - usize::MAX / 4;
    assert_eq!(alert_level(three_quarters - 1, usize::MAX), None);
    assert_eq!(alert_level(three_quarters, usize::MAX), Some(Alert::Warning));
}

#[test]
fn alert_texts() {
    assert_eq!(Alert::Warning.message(), "Warning: You've used up over 75% of your quota!");
    assert_eq!(Alert::Critical.message(), "Critical: You've used up over 90% of your quota!");
    assert_eq!(Alert::Error.message(), "Error: You've maxed out your quota!");
}
