use mbus::workers::msg_node::{route_message, takes_message, NodeOutcome};
use mbus::sequential_bus::Delivery;
use mbus::{MessageBusSeq, Worker};

struct TestWorker {
    divisor: i32,
    asked: Vec<i32>,
    handled: Vec<i32>,
}

impl TestWorker {
    fn new(divisor: i32) -> Self {
        Self { divisor, asked: Vec::new(), handled: Vec::new() }
    }
}

impl Worker<i32, f32> for TestWorker {
    fn accepts(&self, msg: &i32) -> bool {
        msg % self.divisor == 0
    }

    fn handles(&self, msg: &i32) -> f32 {
        *msg as f32 * 2.0
    }

    fn checked(&self) -> Vec<i32> {
        self.asked.clone()
    }

    fn handled(&self) -> Vec<i32> {
        self.handled.clone()
    }

    fn check_msg(&mut self, msg: &i32) -> bool {
        self.asked.push(*msg);
        msg % self.divisor == 0
    }

    fn handle_msg(&mut self, msg: &i32) -> f32 {
        self.handled.push(*msg);
        *msg as f32 * 2.0
    }
}

/// Publishes one message and carries it along the chain; returns the node
/// that kept it, and passes an unhandled message to the handler.
fn deliver(bus: &mut MessageBusSeq<fn(&i32)>, workers: &mut Vec<TestWorker>, msg: i32) -> Option<usize> {
    match bus.deliver(workers, &msg) {
        Delivery::Handled { node, .. } => Some(node),
        Delivery::Unhandled(handler) => {
            if let Some(handler) = handler {
                handler(&msg);
            }
            None
        }
    }
}

fn print_unhandled(msg: &i32) {
    println!("Unhandled message: {}", msg);
}

#[test]
fn takes_message_only_when_enabled_and_accepted() {
    assert!(takes_message(true, true));
    assert!(!takes_message(true, false));
    assert!(!takes_message(false, true));
    assert!(!takes_message(false, false));
}

#[test]
fn disabled_node_does_not_ask_its_worker() {
    let mut worker = TestWorker::new(2);
    let outcome = route_message(&mut worker, false, &10);
    assert!(matches!(outcome, NodeOutcome::Forwarded));
    assert!(worker.asked.is_empty());
    assert!(worker.handled.is_empty());
}

#[test]
fn enabled_node_hands_accepted_message_to_worker() {
    let mut worker = TestWorker::new(2);
    let outcome = route_message(&mut worker, true, &10);
    assert!(matches!(outcome, NodeOutcome::Handled(r) if r == 20.0));
    assert_eq!(worker.asked, vec![10]);
    assert_eq!(worker.handled, vec![10]);
}

#[test]
fn enabled_node_forwards_rejected_message() {
    let mut worker = TestWorker::new(2);
    let outcome = route_message(&mut worker, true, &15);
    assert!(matches!(outcome, NodeOutcome::Forwarded));
    assert_eq!(worker.asked, vec![15]);
    assert!(worker.handled.is_empty());
}

#[test]
fn boxed_worker_routes_like_its_content() {
    let mut worker: Box<dyn Worker<i32, f32>> = Box::new(TestWorker::new(3));
    assert!(matches!(route_message(&mut worker, true, &9), NodeOutcome::Handled(r) if r == 18.0));
    assert!(matches!(route_message(&mut worker, true, &10), NodeOutcome::Forwarded));
}

#[test]
fn chain_without_workers_counts_unhandled() {
    let mut bus: MessageBusSeq<fn(&i32)> = MessageBusSeq::new();
    bus.set_unhandled(print_unhandled);
    let mut workers: Vec<TestWorker> = Vec::new();
    assert_eq!(bus.len(), 0);
    assert_eq!(deliver(&mut bus, &mut workers, 10), None);
    assert_eq!(bus.get_num_msgs(), 1);
    assert_eq!(bus.get_num_unhandled(), 1);
}

#[test]
fn chain_with_single_worker() {
    let mut bus: MessageBusSeq<fn(&i32)> = MessageBusSeq::new();
    bus.set_unhandled(print_unhandled);
    let mut workers = vec![TestWorker::new(2)];
    bus.add_worker();
    assert_eq!(deliver(&mut bus, &mut workers, 20), Some(0));
    assert_eq!(bus.get_num_msgs(), 1);
    assert_eq!(bus.get_num_unhandled(), 0);
    assert_eq!(deliver(&mut bus, &mut workers, 15), None);
    assert_eq!(bus.get_num_msgs(), 2);
    assert_eq!(bus.get_num_unhandled(), 1);
}

#[test]
fn chain_with_multiple_workers() {
    let mut bus: MessageBusSeq<fn(&i32)> = MessageBusSeq::new();
    bus.set_unhandled(print_unhandled);
    let mut workers = vec![TestWorker::new(2), TestWorker::new(3)];
    bus.add_worker();
    bus.add_worker();
    assert_eq!(deliver(&mut bus, &mut workers, 20), Some(0));
    assert_eq!(bus.get_num_msgs(), 1);
    assert_eq!(bus.get_num_unhandled(), 0);
    assert_eq!(deliver(&mut bus, &mut workers, 15), Some(1));
    assert_eq!(bus.get_num_msgs(), 2);
    assert_eq!(bus.get_num_unhandled(), 0);
    assert_eq!(deliver(&mut bus, &mut workers, 5), None);
    assert_eq!(bus.get_num_msgs(), 3);
    assert_eq!(bus.get_num_unhandled(), 1);
}

#[test]
fn first_accepting_worker_keeps_the_message() {
    let mut bus: MessageBusSeq<fn(&i32)> = MessageBusSeq::new();
    let mut workers = vec![TestWorker::new(2), TestWorker::new(3)];
    bus.add_worker();
    bus.add_worker();
    // 6 is accepted by both; only the first sees it handled.
    assert_eq!(deliver(&mut bus, &mut workers, 6), Some(0));
    assert_eq!(workers[0].handled, vec![6]);
    assert!(workers[1].asked.is_empty());
}

#[test]
fn disabled_worker_passes_its_messages_on() {
    let mut bus: MessageBusSeq<fn(&i32)> = MessageBusSeq::new();
    let mut workers = vec![TestWorker::new(2), TestWorker::new(3)];
    bus.add_worker();
    bus.add_worker();
    bus.set_enabled(0, false);
    assert_eq!(deliver(&mut bus, &mut workers, 6), Some(1));
    assert_eq!(deliver(&mut bus, &mut workers, 20), None);
    assert!(workers[0].asked.is_empty());
    assert_eq!(bus.get_num_unhandled(), 1);
    assert_eq!(bus.get_num_msgs(), 2);
}

#[test]
fn added_worker_only_takes_unclaimed_messages() {
    let mut bus: MessageBusSeq<fn(&i32)> = MessageBusSeq::new();
    let mut workers = vec![TestWorker::new(2)];
    bus.add_worker();
    assert_eq!(deliver(&mut bus, &mut workers, 12), Some(0));
    assert_eq!(deliver(&mut bus, &mut workers, 9), None);
    workers.push(TestWorker::new(3));
    bus.add_worker();
    assert_eq!(deliver(&mut bus, &mut workers, 12), Some(0));
    assert_eq!(deliver(&mut bus, &mut workers, 9), Some(1));
    assert_eq!(bus.get_num_unhandled(), 1);
}

#[test]
fn delivery_returns_what_the_worker_handled() {
    let mut bus: MessageBusSeq<fn(&i32)> = MessageBusSeq::new();
    let mut workers = vec![TestWorker::new(2), TestWorker::new(3)];
    bus.add_worker();
    bus.add_worker();
    assert!(matches!(bus.deliver(&mut workers, &9), Delivery::Handled { node: 1, result } if result == 18.0));
    assert_eq!(workers[1].handled, vec![9]);
    assert!(workers[0].handled.is_empty());
}

#[test]
fn unhandled_delivery_hands_back_the_handler() {
    let mut bus: MessageBusSeq<fn(&i32)> = MessageBusSeq::new();
    let mut workers = vec![TestWorker::new(2)];
    bus.add_worker();
    assert!(matches!(bus.deliver(&mut workers, &7), Delivery::Unhandled(None)));
    bus.set_unhandled(print_unhandled);
    assert!(matches!(bus.deliver(&mut workers, &7), Delivery::Unhandled(Some(_))));
    assert_eq!(bus.get_num_msgs(), 2);
    assert_eq!(bus.get_num_unhandled(), 2);
}

#[test]
fn boxed_workers_form_a_chain() {
    let mut bus: MessageBusSeq<fn(&i32)> = MessageBusSeq::new();
    let mut workers: Vec<Box<dyn Worker<i32, f32>>> =
        vec![Box::new(TestWorker::new(2)), Box::new(TestWorker::new(3))];
    bus.add_worker();
    bus.add_worker();
    assert!(matches!(bus.deliver(&mut workers, &20), Delivery::Handled { node: 0, .. }));
    assert!(matches!(bus.deliver(&mut workers, &15), Delivery::Handled { node: 1, .. }));
    assert!(matches!(bus.deliver(&mut workers, &5), Delivery::Unhandled(None)));
    assert_eq!(bus.get_num_msgs(), 3);
    assert_eq!(bus.get_num_unhandled(), 1);
}

#[test]
fn every_message_is_accounted_once() {
    let mut bus: MessageBusSeq<fn(&i32)> = MessageBusSeq::new();
    let mut workers = vec![TestWorker::new(2), TestWorker::new(3)];
    bus.add_worker();
    bus.add_worker();
    for msg in [20, 15, 5, 6, 7, 9] {
        deliver(&mut bus, &mut workers, msg);
    }
    let handled = workers[0].handled.len() + workers[1].handled.len();
    assert_eq!(bus.get_num_msgs(), 6);
    assert_eq!(bus.get_num_unhandled(), 2);
    assert_eq!(bus.get_num_msgs(), bus.get_num_unhandled() + handled);
    assert_eq!(workers[0].handled, vec![20, 6]);
    assert_eq!(workers[1].handled, vec![15, 9]);
    assert_eq!(workers[0].asked, vec![20, 15, 5, 6, 7, 9]);
    assert_eq!(workers[1].asked, vec![15, 5, 7, 9]);
}
