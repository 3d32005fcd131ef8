//! Laws about whole runs of a bus: what its counters and its chain hold after
//! any sequence of the operations that change its state.
//!
//! Each step is one call on the bus (`add_worker`, `publish`,
//! `set_unhandled`, `set_enabled`, `stop`, `record_unhandled`) or a node of
//! the chain handling a message (`route_message` returning `Handled`), which
//! leaves the bus's own state alone.
use vstd::prelude::*;
use crate::sequential_bus::{
    after_add_worker, after_publish, after_set_enabled, after_set_unhandled, after_stop,
    after_unhandled, counts_ordered, initial_bus, BusView,
};

verus! {

/// One step in the life of a bus.
pub enum BusEvent<H> {
    /// `add_worker`.
    AddWorker,
    /// `publish`.
    Publish,
    /// `set_unhandled` with this handler.
    SetUnhandled(H),
    /// `set_enabled` at this position with this flag.
    SetEnabled(usize, bool),
    /// `stop`.
    Stop,
    /// `record_unhandled`: a message left the end of the chain untaken.
    Unhandled,
    /// A node's worker was given a message to handle.
    Handled,
}

/// The state after one step, as the step's own contract gives it.
pub open spec fn after_event<H>(bus: BusView<H>, event: BusEvent<H>) -> BusView<H> {
    match event {
        BusEvent::AddWorker => after_add_worker(bus),
        BusEvent::Publish => after_publish(bus),
        BusEvent::SetUnhandled(handler) => after_set_unhandled(bus, handler),
        BusEvent::SetEnabled(idx, enabled) => after_set_enabled(bus, idx as int, enabled),
        BusEvent::Stop => after_stop(bus),
        BusEvent::Unhandled => after_unhandled(bus),
        BusEvent::Handled => bus,
    }
}

/// The state after `events`, in order.
pub open spec fn after_events<H>(bus: BusView<H>, events: Seq<BusEvent<H>>) -> BusView<H>
    decreases events.len(),
{
    if events.len() == 0 {
        bus
    } else {
        after_event(after_events(bus, events.drop_last()), events.last())
    }
}

/// Whether every `Unhandled` step of the run comes when the bus has a
/// published message not yet counted as unhandled, as `record_unhandled`
/// requires.
pub open spec fn follows_protocol<H>(bus: BusView<H>, events: Seq<BusEvent<H>>) -> bool
    decreases events.len(),
{
    if events.len() == 0 {
        true
    } else {
        &&& follows_protocol(bus, events.drop_last())
        &&& (events.last() is Unhandled ==> after_events(bus, events.drop_last()).num_unhandled
            < after_events(bus, events.drop_last()).num_msgs)
    }
}

/// How many steps of the run append a worker.
pub open spec fn workers_added<H>(events: Seq<BusEvent<H>>) -> nat
    decreases events.len(),
{
    if events.len() == 0 {
        0
    } else {
        workers_added(events.drop_last()) + if events.last() is AddWorker {
            1nat
        } else {
            0nat
        }
    }
}

/// How many steps of the run publish a message.
pub open spec fn messages_published<H>(events: Seq<BusEvent<H>>) -> nat
    decreases events.len(),
{
    if events.len() == 0 {
        0
    } else {
        messages_published(events.drop_last()) + if events.last() is Publish {
            1nat
        } else {
            0nat
        }
    }
}

/// How many steps of the run count a message as unhandled.
pub open spec fn messages_unhandled<H>(events: Seq<BusEvent<H>>) -> nat
    decreases events.len(),
{
    if events.len() == 0 {
        0
    } else {
        messages_unhandled(events.drop_last()) + if events.last() is Unhandled {
            1nat
        } else {
            0nat
        }
    }
}

/// How many steps of the run give a message to a worker to handle.
pub open spec fn messages_handled<H>(events: Seq<BusEvent<H>>) -> nat
    decreases events.len(),
{
    if events.len() == 0 {
        0
    } else {
        messages_handled(events.drop_last()) + if events.last() is Handled {
            1nat
        } else {
            0nat
        }
    }
}

/// After any run, the chain has grown by exactly one node per `add_worker`,
/// the published count by exactly one per `publish`, and the unhandled count
/// by exactly one per `record_unhandled`; no other step moves them.
pub proof fn lemma_run_counts<H>(bus: BusView<H>, events: Seq<BusEvent<H>>)
    ensures
        after_events(bus, events).enabled.len() == bus.enabled.len() + workers_added(events),
        after_events(bus, events).num_msgs == bus.num_msgs + messages_published(events),
        after_events(bus, events).num_unhandled == bus.num_unhandled + messages_unhandled(events),
    decreases events.len(),
{
    if events.len() > 0 {
        lemma_run_counts(bus, events.drop_last());
    }
}

/// No step makes the node count, the published count or the unhandled count
/// smaller.
pub proof fn lemma_counts_never_decrease<H>(bus: BusView<H>, event: BusEvent<H>)
    ensures
        after_event(bus, event).enabled.len() >= bus.enabled.len(),
        after_event(bus, event).num_msgs >= bus.num_msgs,
        after_event(bus, event).num_unhandled >= bus.num_unhandled,
{
}

/// On a bus that starts fresh and is used as its contracts require, there are
/// never more unhandled messages than published ones.
pub proof fn lemma_run_keeps_counts_ordered<H>(events: Seq<BusEvent<H>>)
    requires
        follows_protocol(initial_bus::<H>(), events),
    ensures
        counts_ordered(after_events(initial_bus::<H>(), events)),
    decreases events.len(),
{
    if events.len() > 0 {
        lemma_run_keeps_counts_ordered::<H>(events.drop_last());
    }
}

/// Once a bus that started fresh is quiet (every published message has been
/// handled by a worker or counted as unhandled), the published count is the
/// unhandled count plus the number of messages the workers were given to
/// handle.
pub proof fn lemma_quiet_bus_is_balanced<H>(events: Seq<BusEvent<H>>)
    requires
        messages_published(events) == messages_unhandled(events) + messages_handled(events),
    ensures
        after_events(initial_bus::<H>(), events).num_msgs == after_events(
            initial_bus::<H>(),
            events,
        ).num_unhandled + messages_handled(events),
{
    lemma_run_counts(initial_bus::<H>(), events);
}

} // verus!
