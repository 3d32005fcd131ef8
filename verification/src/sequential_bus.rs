//! The bookkeeping of a message bus: the chain of worker nodes with their
//! enabled flags, the message counters, the unhandled-message handler and the
//! running flag of the thread that collects unhandled messages.
//!
//! The threads of a running bus share this state: the publisher counts each
//! message before sending it, each node reads its enabled flag, and the
//! collector counts what leaves the end of the chain. `deliver` carries one
//! message along the whole chain in the calling thread, as the nodes do
//! between them.
use vstd::prelude::*;
use crate::chain::{chain_taker, is_first_taker, lemma_chain_taker_is_unique};
use crate::workers::msg_node::{node_takes, route_message, NodeOutcome};
use crate::workers::worker::Worker;

verus! {

/// The abstract state of a bus.
pub struct BusView<H> {
    /// One flag per worker node, in chain order: whether the node is enabled.
    pub enabled: Seq<bool>,
    /// The handler that receives messages no worker took, if one was set.
    pub handler: Option<H>,
    /// Whether the collector of unhandled messages keeps running.
    pub running: bool,
    /// How many messages were published.
    pub num_msgs: nat,
    /// How many messages reached the end of the chain untaken.
    pub num_unhandled: nat,
}

/// The state of a freshly made bus: no workers, no handler, running, and
/// nothing counted.
pub open spec fn initial_bus<H>() -> BusView<H> {
    BusView {
        enabled: Seq::empty(),
        handler: None,
        running: true,
        num_msgs: 0,
        num_unhandled: 0,
    }
}

/// The state after a message is published: one more message counted.
pub open spec fn after_publish<H>(bus: BusView<H>) -> BusView<H> {
    BusView { num_msgs: bus.num_msgs + 1, ..bus }
}

/// The state after a message reaches the end of the chain untaken: one more
/// unhandled message counted.
pub open spec fn after_unhandled<H>(bus: BusView<H>) -> BusView<H> {
    BusView { num_unhandled: bus.num_unhandled + 1, ..bus }
}

/// The state after a worker node is appended: one more node, enabled.
pub open spec fn after_add_worker<H>(bus: BusView<H>) -> BusView<H> {
    BusView { enabled: bus.enabled.push(true), ..bus }
}

/// The state after the unhandled-message handler is set to `handler`.
pub open spec fn after_set_unhandled<H>(bus: BusView<H>, handler: H) -> BusView<H> {
    BusView { handler: Some(handler), ..bus }
}

/// The state after node `idx` is enabled or disabled; a position past the
/// end of the chain changes nothing.
pub open spec fn after_set_enabled<H>(bus: BusView<H>, idx: int, enabled: bool) -> BusView<H> {
    if 0 <= idx < bus.enabled.len() {
        BusView { enabled: bus.enabled.update(idx, enabled), ..bus }
    } else {
        bus
    }
}

/// The state after the collector of unhandled messages is told to stop.
pub open spec fn after_stop<H>(bus: BusView<H>) -> BusView<H> {
    BusView { running: false, ..bus }
}

/// What every bus keeps to: each unhandled message was published first, so
/// there are never more unhandled messages than published ones.
pub open spec fn counts_ordered<H>(bus: BusView<H>) -> bool {
    bus.num_unhandled <= bus.num_msgs
}

/// What each worker of a chain answers to `msg`, in the workers' present
/// states.
pub open spec fn answers<TMsg: Send, TResult: Send, W: Worker<TMsg, TResult>>(
    workers: Seq<W>,
    msg: &TMsg,
) -> Seq<bool> {
    Seq::new(workers.len(), |i: int| workers[i].accepts(msg))
}

/// How many messages the workers of a chain have been given to handle, all
/// together.
pub open spec fn total_handled<TMsg: Send, TResult: Send, W: Worker<TMsg, TResult>>(
    workers: Seq<W>,
) -> nat
    decreases workers.len(),
{
    if workers.len() == 0 {
        0
    } else {
        total_handled(workers.drop_last()) + workers.last().handled()@.len()
    }
}

/// Every published message is accounted for exactly once: either a worker of
/// the chain was given it to handle, or it was counted as unhandled.
pub open spec fn balanced<H, TMsg: Send, TResult: Send, W: Worker<TMsg, TResult>>(
    bus: BusView<H>,
    workers: Seq<W>,
) -> bool {
    bus.num_msgs == bus.num_unhandled + total_handled(workers)
}

/// A fresh bus whose workers have handled nothing yet is balanced.
pub proof fn lemma_fresh_bus_is_balanced<H, TMsg: Send, TResult: Send, W: Worker<TMsg, TResult>>(
    workers: Seq<W>,
)
    requires
        forall|i: int| 0 <= i < workers.len() ==> #[trigger] workers[i].handled()@.len() == 0,
    ensures
        balanced(initial_bus::<H>(), workers),
    decreases workers.len(),
{
    if workers.len() > 0 {
        let rest = workers.drop_last();
        assert forall|i: int| 0 <= i < rest.len() implies #[trigger] rest[i].handled()@.len() == 0 by {
            assert(rest[i] == workers[i]);
        }
        lemma_fresh_bus_is_balanced::<H, TMsg, TResult, W>(rest);
        assert(workers[workers.len() - 1].handled()@.len() == 0);
    }
}

/// A chain's message counts move by one between `before` and `after`: at
/// most the worker at position `node` was given one more message to handle.
proof fn lemma_total_handled_step<TMsg: Send, TResult: Send, W: Worker<TMsg, TResult>>(
    before: Seq<W>,
    after: Seq<W>,
    node: Option<nat>,
)
    requires
        before.len() == after.len(),
        forall|i: int|
            0 <= i < before.len() ==> #[trigger] after[i].handled()@.len() == before[i].handled()@.len()
                + if node == Some(i as nat) {
                1nat
            } else {
                0nat
            },
    ensures
        total_handled(after) == total_handled(before) + if node is Some && node->0 < before.len() {
            1nat
        } else {
            0nat
        },
    decreases before.len(),
{
    if before.len() > 0 {
        let b = before.drop_last();
        let a = after.drop_last();
        assert forall|i: int| 0 <= i < b.len() implies #[trigger] a[i].handled()@.len()
            == b[i].handled()@.len() + if node == Some(i as nat) {
            1nat
        } else {
            0nat
        } by {
            assert(a[i] == after[i]);
            assert(b[i] == before[i]);
        }
        lemma_total_handled_step(b, a, node);
        let last = before.len() - 1;
        assert(after[last].handled()@.len() == before[last].handled()@.len() + if node == Some(
            last as nat,
        ) {
            1nat
        } else {
            0nat
        });
    }
}

/// The position of the node that kept a delivered message, if one did.
pub open spec fn kept_by<TResult, H>(delivery: Delivery<TResult, H>) -> Option<nat> {
    match delivery {
        Delivery::Handled { node, .. } => Some(node as nat),
        Delivery::Unhandled(_) => None,
    }
}

/// Whether a message that ends at `taker` passes node `i` on its way: it
/// reaches every node up to the one that keeps it, and all of them when none
/// does.
pub open spec fn reaches(taker: Option<nat>, i: int) -> bool {
    match taker {
        Some(k) => i <= k,
        None => true,
    }
}

/// What became of a message carried along the chain.
pub enum Delivery<TResult, H> {
    /// The worker at position `node` kept the message; `result` is what its
    /// `handle_msg` returned.
    Handled { node: usize, result: TResult },
    /// No worker kept the message; it was counted as unhandled and is to be
    /// passed to this handler, if one is set.
    Unhandled(Option<H>),
}

/// The bookkeeping of a message bus whose unhandled-message handler has type
/// `H`.
pub struct MessageBusSeq<H> {
    enabled: Vec<bool>,
    unhandled_msg_handler: Option<H>,
    running: bool,
    num_msgs: usize,
    num_unhandled: usize,
}

impl<H> View for MessageBusSeq<H> {
    type V = BusView<H>;

    closed spec fn view(&self) -> BusView<H> {
        BusView {
            enabled: self.enabled@,
            handler: self.unhandled_msg_handler,
            running: self.running,
            num_msgs: self.num_msgs as nat,
            num_unhandled: self.num_unhandled as nat,
        }
    }
}

impl<H> MessageBusSeq<H> {
    #[verifier::type_invariant]
    closed spec fn counts_are_ordered(self) -> bool {
        self.num_unhandled <= self.num_msgs
    }

    /// A bus with no workers, no handler, nothing counted, and its collector
    /// of unhandled messages running.
    pub fn new() -> (bus: Self)
        ensures
            bus@ == initial_bus::<H>(),
            bus@.enabled.len() == 0,
            bus@.handler is None,
            bus@.running,
            bus@.num_msgs == 0,
            bus@.num_unhandled == 0,
            counts_ordered(bus@),
    {
        MessageBusSeq {
            enabled: Vec::new(),
            unhandled_msg_handler: None,
            running: true,
            num_msgs: 0,
            num_unhandled: 0,
        }
    }

    /// Counts a message that is being put onto the bus.
    pub fn publish(&mut self)
        requires
            old(self)@.num_msgs < usize::MAX,
        ensures
            final(self)@ == after_publish(old(self)@),
            final(self)@.num_msgs == old(self)@.num_msgs + 1,
            final(self)@.num_unhandled == old(self)@.num_unhandled,
            final(self)@.enabled == old(self)@.enabled,
            final(self)@.handler == old(self)@.handler,
            final(self)@.running == old(self)@.running,
            counts_ordered(final(self)@),
    {
        proof {
            use_type_invariant(&*self);
        }
        self.num_msgs = self.num_msgs + 1;
    }

    /// Sets the handler that receives messages no worker takes.
    pub fn set_unhandled(&mut self, handler: H)
        ensures
            final(self)@ == after_set_unhandled(old(self)@, handler),
            final(self)@.handler == Some(handler),
            final(self)@.enabled == old(self)@.enabled,
            final(self)@.num_msgs == old(self)@.num_msgs,
            final(self)@.num_unhandled == old(self)@.num_unhandled,
            final(self)@.running == old(self)@.running,
            counts_ordered(final(self)@),
    {
        proof {
            use_type_invariant(&*self);
        }
        self.unhandled_msg_handler = Some(handler);
    }

    /// Appends a worker node, enabled, at the end of the chain, and returns
    /// its position.
    pub fn add_worker(&mut self) -> (idx: usize)
        ensures
            idx == old(self)@.enabled.len(),
            final(self)@ == after_add_worker(old(self)@),
            final(self)@.enabled.len() == old(self)@.enabled.len() + 1,
            forall|i: int|
                0 <= i < old(self)@.enabled.len() ==> #[trigger] final(self)@.enabled[i] == old(
                    self,
                )@.enabled[i],
            final(self)@.enabled[idx as int],
            final(self)@.handler == old(self)@.handler,
            final(self)@.num_msgs == old(self)@.num_msgs,
            final(self)@.num_unhandled == old(self)@.num_unhandled,
            final(self)@.running == old(self)@.running,
            counts_ordered(final(self)@),
    {
        proof {
            use_type_invariant(&*self);
        }
        let idx = self.enabled.len();
        let mut enabled = Vec::new();
        std::mem::swap(&mut enabled, &mut self.enabled);
        enabled.push(true);
        self.enabled = enabled;
        idx
    }

    /// The number of worker nodes.
    pub fn len(&self) -> (n: usize)
        ensures
            n == self@.enabled.len(),
    {
        self.enabled.len()
    }

    /// Whether the bus has no worker nodes.
    pub fn is_empty(&self) -> (empty: bool)
        ensures
            empty <==> self@.enabled.len() == 0,
    {
        self.enabled.len() == 0
    }

    /// How many messages were published.
    pub fn get_num_msgs(&self) -> (n: usize)
        ensures
            n == self@.num_msgs,
            counts_ordered(self@),
    {
        proof {
            use_type_invariant(self);
        }
        self.num_msgs
    }

    /// How many messages went through the whole chain untaken; never more
    /// than were published.
    pub fn get_num_unhandled(&self) -> (n: usize)
        ensures
            n == self@.num_unhandled,
            counts_ordered(self@),
    {
        proof {
            use_type_invariant(self);
        }
        self.num_unhandled
    }

    /// Enables or disables the worker node at position `idx`; a position past
    /// the end of the chain changes nothing.
    pub fn set_enabled(&mut self, idx: usize, enabled: bool)
        ensures
            final(self)@ == after_set_enabled(old(self)@, idx as int, enabled),
            final(self)@.enabled.len() == old(self)@.enabled.len(),
            idx < old(self)@.enabled.len() ==> final(self)@.enabled[idx as int] == enabled,
            forall|i: int|
                0 <= i < old(self)@.enabled.len() && i != idx ==> #[trigger] final(self)@.enabled[i]
                    == old(self)@.enabled[i],
            final(self)@.handler == old(self)@.handler,
            final(self)@.num_msgs == old(self)@.num_msgs,
            final(self)@.num_unhandled == old(self)@.num_unhandled,
            final(self)@.running == old(self)@.running,
            counts_ordered(final(self)@),
    {
        proof {
            use_type_invariant(&*self);
        }
        if idx < self.enabled.len() {
            let mut flags = Vec::new();
            std::mem::swap(&mut flags, &mut self.enabled);
            flags.set(idx, enabled);
            self.enabled = flags;
        }
    }

    /// Whether the node at position `idx` exists and is enabled.
    pub fn is_enabled(&self, idx: usize) -> (enabled: bool)
        ensures
            enabled <==> (idx < self@.enabled.len() && self@.enabled[idx as int]),
    {
        idx < self.enabled.len() && self.enabled[idx]
    }

    /// Whether the collector of unhandled messages keeps running.
    pub fn is_running(&self) -> (running: bool)
        ensures
            running == self@.running,
    {
        self.running
    }

    /// Tells the collector of unhandled messages to stop.
    pub fn stop(&mut self)
        ensures
            final(self)@ == after_stop(old(self)@),
            !final(self)@.running,
            final(self)@.enabled == old(self)@.enabled,
            final(self)@.handler == old(self)@.handler,
            final(self)@.num_msgs == old(self)@.num_msgs,
            final(self)@.num_unhandled == old(self)@.num_unhandled,
            counts_ordered(final(self)@),
    {
        proof {
            use_type_invariant(&*self);
        }
        self.running = false;
    }
}

impl<H: Copy> MessageBusSeq<H> {
    /// Counts a message that reached the end of the chain untaken, and returns
    /// the handler it is to be passed to, if one is set. Such a message was
    /// published, and counted, before it went along the chain, so it is one
    /// of the published messages not yet counted as unhandled.
    pub fn record_unhandled(&mut self) -> (handler: Option<H>)
        requires
            old(self)@.num_unhandled < old(self)@.num_msgs,
        ensures
            handler == old(self)@.handler,
            final(self)@ == after_unhandled(old(self)@),
            final(self)@.num_unhandled == old(self)@.num_unhandled + 1,
            final(self)@.num_msgs == old(self)@.num_msgs,
            final(self)@.handler == old(self)@.handler,
            final(self)@.enabled == old(self)@.enabled,
            final(self)@.running == old(self)@.running,
            counts_ordered(final(self)@),
    {
        proof {
            use_type_invariant(&*self);
        }
        self.num_unhandled = self.num_unhandled + 1;
        self.unhandled_msg_handler
    }
}

impl<H: Copy> MessageBusSeq<H> {
    /// Publishes `msg` and carries it along the chain of `workers`, one per
    /// node, in order, in the calling thread, as the bus's node threads do
    /// between them: each enabled node asks its worker, the first worker that
    /// accepts the message handles it, and a message that no worker takes is
    /// counted as unhandled and paired with the handler it is to be passed to.
    ///
    /// The message goes to exactly one place: the first enabled worker that
    /// accepts it is given it once and no other worker is, or else it is
    /// counted as unhandled once. Every enabled node it reaches asks its
    /// worker once; a disabled node does not, and the workers of disabled
    /// nodes and of the nodes past the one that keeps it are left as they are.
    pub fn deliver<TMsg, TResult, W>(&mut self, workers: &mut Vec<W>, msg: &TMsg) -> (delivery:
        Delivery<TResult, H>) where TMsg: Send, TResult: Send, W: Worker<TMsg, TResult>
        requires
            old(workers)@.len() == old(self)@.enabled.len(),
            old(self)@.num_msgs < usize::MAX,
        ensures
            kept_by(delivery) == chain_taker(old(self)@.enabled, answers(old(workers)@, msg)),
            delivery matches Delivery::Unhandled(handler) ==> handler == old(self)@.handler,
            delivery is Handled ==> final(self)@ == after_publish(old(self)@),
            delivery is Unhandled ==> final(self)@ == after_unhandled(after_publish(old(self)@)),
            final(self)@.num_msgs == old(self)@.num_msgs + 1,
            final(self)@.num_unhandled == old(self)@.num_unhandled + if delivery is Unhandled {
                1int
            } else {
                0int
            },
            final(self)@.handler == old(self)@.handler,
            final(self)@.enabled == old(self)@.enabled,
            final(self)@.running == old(self)@.running,
            final(workers)@.len() == old(workers)@.len(),
            forall|i: int|
                0 <= i < old(workers)@.len() ==> #[trigger] final(workers)@[i].handled()@ == if kept_by(
                    delivery,
                ) == Some(i as nat) {
                    old(workers)@[i].handled()@.push(*msg)
                } else {
                    old(workers)@[i].handled()@
                },
            forall|i: int|
                0 <= i < old(workers)@.len() ==> #[trigger] final(workers)@[i].checked()@ == if old(
                    self,
                )@.enabled[i] && reaches(kept_by(delivery), i) {
                    old(workers)@[i].checked()@.push(*msg)
                } else {
                    old(workers)@[i].checked()@
                },
            forall|i: int|
                0 <= i < old(workers)@.len() && !(old(self)@.enabled[i] && reaches(
                    kept_by(delivery),
                    i,
                )) ==> #[trigger] final(workers)@[i] == old(workers)@[i],
            total_handled(final(workers)@) + final(self)@.num_unhandled == total_handled(
                old(workers)@,
            ) + old(self)@.num_unhandled + 1,
            balanced(old(self)@, old(workers)@) ==> balanced(final(self)@, final(workers)@),
            counts_ordered(final(self)@),
    {
        proof {
            use_type_invariant(&*self);
        }
        let ghost w0 = workers@;
        let ghost s0 = self@;
        let ghost acc = answers(w0, msg);
        self.publish();
        let n = workers.len();
        let mut idx: usize = 0;
        while idx < n
            invariant
                n == w0.len(),
                w0 == old(workers)@,
                s0 == old(self)@,
                workers@.len() == n,
                s0.enabled.len() == n,
                acc == answers(w0, msg),
                self@ == after_publish(s0),
                counts_ordered(s0),
                idx <= n,
                forall|j: int| 0 <= j < idx ==> !#[trigger] node_takes(s0.enabled[j], acc[j]),
                forall|j: int| 0 <= j < n ==> #[trigger] workers@[j].handled()@ == w0[j].handled()@,
                forall|j: int|
                    0 <= j < idx ==> #[trigger] workers@[j].checked()@ == if s0.enabled[j] {
                        w0[j].checked()@.push(*msg)
                    } else {
                        w0[j].checked()@
                    },
                forall|j: int| idx <= j < n ==> #[trigger] workers@[j] == w0[j],
                forall|j: int| 0 <= j < idx && !s0.enabled[j] ==> #[trigger] workers@[j] == w0[j],
            decreases n - idx,
        {
            let enabled = self.is_enabled(idx);
            let outcome = route_message(&mut workers[idx], enabled, msg);
            match outcome {
                NodeOutcome::Handled(result) => {
                    proof {
                        assert(acc[idx as int] == w0[idx as int].accepts(msg));
                        assert(node_takes(s0.enabled[idx as int], acc[idx as int]));
                        assert(is_first_taker(s0.enabled, acc, Some(idx as nat)));
                        lemma_chain_taker_is_unique(s0.enabled, acc, Some(idx as nat));
                        lemma_total_handled_step(w0, workers@, Some(idx as nat));
                    }
                    return Delivery::Handled { node: idx, result };
                },
                NodeOutcome::Forwarded => {
                    proof {
                        assert(acc[idx as int] == w0[idx as int].accepts(msg));
                    }
                },
            }
            idx = idx + 1;
        }
        proof {
            assert(is_first_taker(s0.enabled, acc, None));
            lemma_chain_taker_is_unique(s0.enabled, acc, None);
            lemma_total_handled_step(w0, workers@, None);
        }
        let handler = self.record_unhandled();
        Delivery::Unhandled(handler)
    }
}

impl<H> Default for MessageBusSeq<H> {
    fn default() -> (bus: Self)
        ensures
            bus@ == initial_bus::<H>(),
            bus@.enabled.len() == 0,
            bus@.handler is None,
            bus@.running,
            bus@.num_msgs == 0,
            bus@.num_unhandled == 0,
            counts_ordered(bus@),
    {
        Self::new()
    }
}

} // verus!
