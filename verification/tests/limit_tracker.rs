use ownership_models::limit_tracker::{classify, LimitTracker, Messenger, MockMessenger, Severity};

/// The messages that the tracker's messenger has kept.
fn messages(tracker: &LimitTracker<MockMessenger>) -> Vec<String> {
    tracker.messenger().sent_messages.try_read().unwrap().clone()
}

#[test]
fn eighty_of_hundred_is_informational() {
    let mut tracker = LimitTracker::new(MockMessenger::new(), 100);
    tracker.set_value(80);
    assert_eq!(messages(&tracker), vec!["INFO: Reached 75% of quota."]);
}

#[test]
fn ninety_five_of_hundred_is_a_warning() {
    let mut tracker = LimitTracker::new(MockMessenger::new(), 100);
    tracker.set_value(95);
    assert_eq!(messages(&tracker), vec!["WARNING: Reached 90% of quota."]);
}

#[test]
fn hundred_of_hundred_is_an_error() {
    let mut tracker = LimitTracker::new(MockMessenger::new(), 100);
    tracker.set_value(100);
    assert_eq!(messages(&tracker), vec!["ERROR: Quota exceeded."]);
}

#[test]
fn fifty_of_hundred_is_silent() {
    let mut tracker = LimitTracker::new(MockMessenger::new(), 100);
    tracker.set_value(50);
    assert!(messages(&tracker).is_empty());
}

#[test]
fn each_call_is_judged_alone() {
    let mut tracker = LimitTracker::new(MockMessenger::new(), 100);
    tracker.set_value(100);
    tracker.set_value(50);
    tracker.set_value(80);
    tracker.set_value(80);
    tracker.set_value(95);
    tracker.set_value(0);
    assert_eq!(
        messages(&tracker),
        vec![
            "ERROR: Quota exceeded.",
            "INFO: Reached 75% of quota.",
            "INFO: Reached 75% of quota.",
            "WARNING: Reached 90% of quota.",
        ]
    );
    let messenger = tracker.into_messenger();
    assert_eq!(messenger.sent_messages.reader_count(), 0);
    assert!(!messenger.sent_messages.is_write_locked());
}

#[test]
fn thresholds_are_reached_exactly() {
    assert_eq!(classify(74, 100), None);
    assert_eq!(classify(75, 100), Some(Severity::Info));
    assert_eq!(classify(89, 100), Some(Severity::Info));
    assert_eq!(classify(90, 100), Some(Severity::Warning));
    assert_eq!(classify(99, 100), Some(Severity::Warning));
    assert_eq!(classify(100, 100), Some(Severity::Error));
    assert_eq!(classify(101, 100), Some(Severity::Error));
    assert_eq!(classify(0, 100), None);
    assert_eq!(classify(3, 4), Some(Severity::Info));
    assert_eq!(classify(2, 4), None);
    assert_eq!(classify(9, 10), Some(Severity::Warning));
    assert_eq!(classify(1, 1), Some(Severity::Error));
    assert_eq!(classify(0, 1), None);
}

#[test]
fn quota_of_zero() {
    assert_eq!(classify(0, 0), None);
    assert_eq!(classify(1, 0), Some(Severity::Error));
    let mut tracker = LimitTracker::new(MockMessenger::new(), 0);
    tracker.set_value(0);
    assert!(messages(&tracker).is_empty());
    tracker.set_value(1);
    assert_eq!(messages(&tracker), vec!["ERROR: Quota exceeded."]);
}

#[test]
fn largest_quota_does_not_overflow() {
    let max = usize::MAX;
    assert_eq!(classify(max, max), Some(Severity::Error));
    assert_eq!(classify(max - 1, max), Some(Severity::Warning));
    assert_eq!(classify(max / 10 * 9, max), Some(Severity::Info));
    assert_eq!(classify(max / 4 * 3, max), None);
    assert_eq!(classify(max / 4 * 3 + 3, max), Some(Severity::Info));
    assert_eq!(classify(max / 2, max), None);
}

#[test]
fn severity_texts() {
    assert_eq!(Severity::Info.message(), "INFO: Reached 75% of quota.");
    assert_eq!(Severity::Warning.message(), "WARNING: Reached 90% of quota.");
    assert_eq!(Severity::Error.message(), "ERROR: Quota exceeded.");
}

#[test]
fn mock_messenger_keeps_what_it_is_sent() {
    let mut messenger = MockMessenger::new();
    messenger.send("one");
    messenger.send("two");
    let kept = messenger.sent_messages.into_inner();
    assert_eq!(kept, vec!["one", "two"]);
}
