//! Laws of the single operations of a bus, stated field by field and over
//! pairs of calls: what each operation does to the chain's flags, to the
//! handler and to the counters, and how repeated calls relate.
use vstd::prelude::*;
use crate::runs::{after_events, BusEvent};
use crate::sequential_bus::{
    after_add_worker, after_publish, after_set_enabled, after_set_unhandled, after_stop,
    after_unhandled, BusView,
};

verus! {

/// Counting an unhandled message moves only the unhandled count, by one: the
/// handler, the flags, the published count and the running flag stay.
pub proof fn lemma_recording_unhandled_keeps_the_rest<H>(bus: BusView<H>)
    ensures
        after_unhandled(bus).num_unhandled == bus.num_unhandled + 1,
        after_unhandled(bus).handler == bus.handler,
        after_unhandled(bus).enabled == bus.enabled,
        after_unhandled(bus).num_msgs == bus.num_msgs,
        after_unhandled(bus).running == bus.running,
{
}

/// Publishing moves only the published count, by one.
pub proof fn lemma_publish_keeps_the_rest<H>(bus: BusView<H>)
    ensures
        after_publish(bus).num_msgs == bus.num_msgs + 1,
        after_publish(bus).num_unhandled == bus.num_unhandled,
        after_publish(bus).handler == bus.handler,
        after_publish(bus).enabled == bus.enabled,
        after_publish(bus).running == bus.running,
{
}

/// Setting the handler installs exactly that handler and changes nothing
/// else; a later setting replaces an earlier one.
pub proof fn lemma_set_unhandled_installs<H>(bus: BusView<H>, first: H, second: H)
    ensures
        after_set_unhandled(bus, first).handler == Some(first),
        after_set_unhandled(bus, first).enabled == bus.enabled,
        after_set_unhandled(bus, first).num_msgs == bus.num_msgs,
        after_set_unhandled(bus, first).num_unhandled == bus.num_unhandled,
        after_set_unhandled(bus, first).running == bus.running,
        after_set_unhandled(after_set_unhandled(bus, first), second) == after_set_unhandled(
            bus,
            second,
        ),
{
}

/// Stopping clears only the running flag.
pub proof fn lemma_stop_keeps_the_rest<H>(bus: BusView<H>)
    ensures
        !after_stop(bus).running,
        after_stop(bus).enabled == bus.enabled,
        after_stop(bus).handler == bus.handler,
        after_stop(bus).num_msgs == bus.num_msgs,
        after_stop(bus).num_unhandled == bus.num_unhandled,
{
}

/// Adding a worker appends one enabled node after the existing ones, whose
/// flags stay where and as they were.
pub proof fn lemma_add_worker_appends<H>(bus: BusView<H>)
    ensures
        after_add_worker(bus).enabled.len() == bus.enabled.len() + 1,
        forall|i: int|
            0 <= i < bus.enabled.len() ==> #[trigger] after_add_worker(bus).enabled[i]
                == bus.enabled[i],
        after_add_worker(bus).enabled[bus.enabled.len() as int],
        after_add_worker(bus).handler == bus.handler,
        after_add_worker(bus).num_msgs == bus.num_msgs,
        after_add_worker(bus).num_unhandled == bus.num_unhandled,
        after_add_worker(bus).running == bus.running,
{
}

/// A node disabled before a worker is added stays disabled afterwards, and
/// the new node is enabled.
pub proof fn lemma_add_worker_keeps_disabled_nodes<H>(bus: BusView<H>, idx: int)
    requires
        0 <= idx < bus.enabled.len(),
    ensures
        !after_add_worker(after_set_enabled(bus, idx, false)).enabled[idx],
        after_add_worker(after_set_enabled(bus, idx, false)).enabled[bus.enabled.len() as int],
{
}

/// Setting the flag of a node inside the chain gives it exactly that flag,
/// whatever it was, and leaves the other nodes' flags, the number of nodes
/// and everything else as they were; a position past the end changes
/// nothing.
pub proof fn lemma_set_enabled_sets_one_flag<H>(bus: BusView<H>, idx: int, enabled: bool)
    ensures
        after_set_enabled(bus, idx, enabled).enabled.len() == bus.enabled.len(),
        0 <= idx < bus.enabled.len() ==> after_set_enabled(bus, idx, enabled).enabled[idx]
            == enabled,
        forall|i: int|
            0 <= i < bus.enabled.len() && i != idx ==> #[trigger] after_set_enabled(
                bus,
                idx,
                enabled,
            ).enabled[i] == bus.enabled[i],
        !(0 <= idx < bus.enabled.len()) ==> after_set_enabled(bus, idx, enabled) == bus,
        after_set_enabled(bus, idx, enabled).handler == bus.handler,
        after_set_enabled(bus, idx, enabled).num_msgs == bus.num_msgs,
        after_set_enabled(bus, idx, enabled).num_unhandled == bus.num_unhandled,
        after_set_enabled(bus, idx, enabled).running == bus.running,
{
}

/// Setting a flag twice is the same as setting it once to the second value;
/// in particular setting the same value again changes nothing, and setting a
/// node's flag to what it already is changes nothing.
pub proof fn lemma_set_enabled_last_call_wins<H>(
    bus: BusView<H>,
    idx: int,
    first: bool,
    second: bool,
)
    ensures
        after_set_enabled(after_set_enabled(bus, idx, first), idx, second) == after_set_enabled(
            bus,
            idx,
            second,
        ),
        after_set_enabled(after_set_enabled(bus, idx, first), idx, first) == after_set_enabled(
            bus,
            idx,
            first,
        ),
        0 <= idx < bus.enabled.len() ==> after_set_enabled(bus, idx, bus.enabled[idx]) == bus,
{
    let once = after_set_enabled(bus, idx, second);
    let twice = after_set_enabled(after_set_enabled(bus, idx, first), idx, second);
    if 0 <= idx < bus.enabled.len() {
        assert(twice.enabled =~= once.enabled);
        assert(after_set_enabled(after_set_enabled(bus, idx, first), idx, first).enabled
            =~= after_set_enabled(bus, idx, first).enabled);
        assert(after_set_enabled(bus, idx, bus.enabled[idx]).enabled =~= bus.enabled);
    }
}

/// The handler of a bus after any run is the one set by the last
/// `set_unhandled` of the run, or the one it had before when the run sets
/// none: counting unhandled messages, publishing, adding workers, setting
/// flags and stopping never change it.
pub open spec fn last_handler_set<H>(before: Option<H>, events: Seq<BusEvent<H>>) -> Option<H>
    decreases events.len(),
{
    if events.len() == 0 {
        before
    } else {
        match events.last() {
            BusEvent::SetUnhandled(handler) => Some(handler),
            _ => last_handler_set(before, events.drop_last()),
        }
    }
}

/// Every message that leaves the chain untaken is passed to the handler last
/// set: whatever the run, the bus's handler is the last one `set_unhandled`
/// installed.
pub proof fn lemma_handler_is_the_last_set<H>(bus: BusView<H>, events: Seq<BusEvent<H>>)
    ensures
        after_events(bus, events).handler == last_handler_set(bus.handler, events),
    decreases events.len(),
{
    if events.len() > 0 {
        lemma_handler_is_the_last_set(bus, events.drop_last());
    }
}

} // verus!
