use mbus::Signal;

#[test]
fn new_signal_is_clear() {
    let signal = Signal::new();
    assert!(!signal.is_set());
}

#[test]
fn notify_sets_the_signal() {
    let mut signal = Signal::new();
    signal.notify();
    assert!(signal.is_set());
}

#[test]
fn wait_after_notify_goes_through_and_resets() {
    let mut signal = Signal::new();
    signal.notify();
    assert!(signal.try_wait());
    assert_eq!(signal.is_set(), false);
    signal.notify();
    assert!(signal.try_wait());
    assert_eq!(signal.is_set(), false);
}

#[test]
fn wait_on_clear_signal_must_keep_waiting() {
    let mut signal = Signal::new();
    assert!(!signal.try_wait());
    assert!(!signal.is_set());
}

#[test]
fn notifications_do_not_accumulate() {
    let mut signal = Signal::new();
    signal.notify();
    signal.notify();
    assert!(signal.try_wait());
    assert!(!signal.try_wait());
}
