//! What a node of the chain does with one message.
use vstd::prelude::*;
use crate::workers::worker::Worker;

verus! {

/// Whether a node keeps a message: only an enabled node whose worker accepts
/// it does; every other node passes the message on.
pub open spec fn node_takes(enabled: bool, accepted: bool) -> bool {
    enabled && accepted
}

/// What became of a message at one node.
pub enum NodeOutcome<TResult> {
    /// The node's worker took the message; this is what `handle_msg` returned.
    Handled(TResult),
    /// The message goes on to the next node of the chain.
    Forwarded,
}

/// The node's decision once it knows whether it is enabled and whether its
/// worker accepted the message.
pub fn takes_message(enabled: bool, accepted: bool) -> (take: bool)
    ensures
        take == node_takes(enabled, accepted),
        take <==> (enabled && accepted),
{
    enabled && accepted
}

/// Offers a message to the worker of a node. A disabled node does not ask
/// its worker at all and passes the message on; an enabled node asks
/// `check_msg`, and hands the message to `handle_msg` when it is accepted.
pub fn route_message<TMsg, TResult, W>(worker: &mut W, enabled: bool, msg: &TMsg) -> (outcome:
    NodeOutcome<TResult>) where
    TMsg: Send,
    TResult: Send,
    W: Worker<TMsg, TResult>,

    ensures
        outcome is Handled <==> enabled && old(worker).accepts(msg),
        !enabled ==> *final(worker) == *old(worker),
        outcome is Handled ==> final(worker).handled()@ == old(worker).handled()@.push(*msg),
        outcome is Forwarded ==> final(worker).handled()@ == old(worker).handled()@,
        enabled ==> final(worker).checked()@ == old(worker).checked()@.push(*msg),
        !enabled ==> final(worker).checked()@ == old(worker).checked()@,
{
    if !enabled {
        return NodeOutcome::Forwarded;
    }
    let accepted = worker.check_msg(msg);
    if takes_message(enabled, accepted) {
        NodeOutcome::Handled(worker.handle_msg(msg))
    } else {
        NodeOutcome::Forwarded
    }
}

} // verus!
