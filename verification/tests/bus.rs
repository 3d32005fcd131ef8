use mbus::MessageBusSeq;

fn ignore(_msg: &i32) {}

fn other(_msg: &i32) {}

#[test]
fn new_bus_is_empty_and_running() {
    let bus: MessageBusSeq<fn(&i32)> = MessageBusSeq::new();
    assert_eq!(bus.len(), 0);
    assert!(bus.is_empty());
    assert_eq!(bus.get_num_msgs(), 0);
    assert_eq!(bus.get_num_unhandled(), 0);
    assert!(bus.is_running());
}

#[test]
fn default_bus_is_a_new_bus() {
    let bus: MessageBusSeq<fn(&i32)> = MessageBusSeq::default();
    assert!(bus.is_empty());
    assert_eq!(bus.get_num_msgs(), 0);
    assert_eq!(bus.get_num_unhandled(), 0);
    assert!(bus.is_running());
}

#[test]
fn publish_counts_each_message_once() {
    let mut bus: MessageBusSeq<fn(&i32)> = MessageBusSeq::new();
    bus.publish();
    assert_eq!(bus.get_num_msgs(), 1);
    bus.publish();
    bus.publish();
    assert_eq!(bus.get_num_msgs(), 3);
    assert_eq!(bus.get_num_unhandled(), 0);
}

#[test]
fn add_worker_appends_an_enabled_node() {
    let mut bus: MessageBusSeq<fn(&i32)> = MessageBusSeq::new();
    assert_eq!(bus.add_worker(), 0);
    assert_eq!(bus.add_worker(), 1);
    assert_eq!(bus.len(), 2);
    assert!(!bus.is_empty());
    assert!(bus.is_enabled(0));
    assert!(bus.is_enabled(1));
    assert!(!bus.is_enabled(2));
}

#[test]
fn set_enabled_toggles_one_node() {
    let mut bus: MessageBusSeq<fn(&i32)> = MessageBusSeq::new();
    bus.add_worker();
    bus.add_worker();
    bus.set_enabled(0, false);
    assert!(!bus.is_enabled(0));
    assert!(bus.is_enabled(1));
    bus.set_enabled(0, true);
    assert!(bus.is_enabled(0));
}

#[test]
fn set_enabled_past_the_end_changes_nothing() {
    let mut bus: MessageBusSeq<fn(&i32)> = MessageBusSeq::new();
    bus.add_worker();
    bus.set_enabled(5, false);
    assert_eq!(bus.len(), 1);
    assert!(bus.is_enabled(0));
    assert!(!bus.is_enabled(5));
}

#[test]
fn record_unhandled_without_handler() {
    let mut bus: MessageBusSeq<fn(&i32)> = MessageBusSeq::new();
    bus.publish();
    assert!(bus.record_unhandled().is_none());
    assert_eq!(bus.get_num_unhandled(), 1);
    assert_eq!(bus.get_num_msgs(), 1);
}

#[test]
fn record_unhandled_hands_back_the_handler() {
    let mut bus: MessageBusSeq<fn(&i32)> = MessageBusSeq::new();
    bus.set_unhandled(ignore);
    bus.publish();
    let handler = bus.record_unhandled();
    assert!(handler == Some(ignore as fn(&i32)));
    bus.set_unhandled(other);
    bus.publish();
    let handler = bus.record_unhandled();
    assert!(handler == Some(other as fn(&i32)));
    assert_eq!(bus.get_num_unhandled(), 2);
}

#[test]
fn stop_ends_the_collector() {
    let mut bus: MessageBusSeq<u8> = MessageBusSeq::new();
    bus.stop();
    assert!(!bus.is_running());
    assert_eq!(bus.get_num_msgs(), 0);
}
