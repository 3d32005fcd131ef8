//! Where a message ends up on its way along the chain of worker nodes.
//!
//! A message enters the chain at the first node; each node either keeps it
//! (`node_takes`) or passes it on to the next one, and a message that leaves
//! the last node is unhandled.
use vstd::prelude::*;
use crate::workers::msg_node::node_takes;

verus! {

/// The node that keeps a message which enters the chain at node `start`, given
/// each node's enabled flag and each worker's answer to the message; `None`
/// when the message leaves the end of the chain.
pub open spec fn taker_from(enabled: Seq<bool>, accepted: Seq<bool>, start: nat) -> Option<nat>
    decreases enabled.len() - start,
{
    if start >= enabled.len() {
        None
    } else if node_takes(enabled[start as int], accepted[start as int]) {
        Some(start)
    } else {
        taker_from(enabled, accepted, start + 1)
    }
}

/// The node that keeps a message published onto the chain; `None` when the
/// message is unhandled.
pub open spec fn chain_taker(enabled: Seq<bool>, accepted: Seq<bool>) -> Option<nat> {
    taker_from(enabled, accepted, 0)
}

/// The declarative reading of `chain_taker`: `Some(i)` exactly when node `i`
/// keeps the message and no node before it does; `None` exactly when no node
/// keeps it.
pub open spec fn is_first_taker(enabled: Seq<bool>, accepted: Seq<bool>, outcome: Option<nat>) -> bool {
    match outcome {
        Some(i) => {
            &&& i < enabled.len()
            &&& node_takes(enabled[i as int], accepted[i as int])
            &&& forall|j: int| 0 <= j < i ==> !#[trigger] node_takes(enabled[j], accepted[j])
        },
        None => forall|j: int| 0 <= j < enabled.len() ==> !#[trigger] node_takes(enabled[j], accepted[j]),
    }
}

proof fn lemma_taker_from(enabled: Seq<bool>, accepted: Seq<bool>, start: nat)
    requires
        start <= enabled.len(),
    ensures
        match taker_from(enabled, accepted, start) {
            Some(i) => {
                &&& start <= i < enabled.len()
                &&& node_takes(enabled[i as int], accepted[i as int])
                &&& forall|j: int| start <= j < i ==> !#[trigger] node_takes(enabled[j], accepted[j])
            },
            None => forall|j: int|
                start <= j < enabled.len() ==> !#[trigger] node_takes(enabled[j], accepted[j]),
        },
    decreases enabled.len() - start,
{
    if start < enabled.len() && !node_takes(enabled[start as int], accepted[start as int]) {
        lemma_taker_from(enabled, accepted, start + 1);
    }
}

proof fn lemma_first_taker_unique(
    enabled: Seq<bool>,
    accepted: Seq<bool>,
    o1: Option<nat>,
    o2: Option<nat>,
)
    requires
        is_first_taker(enabled, accepted, o1),
        is_first_taker(enabled, accepted, o2),
    ensures
        o1 == o2,
{
    match o1 {
        Some(i) => match o2 {
            Some(k) => {
                if k < i {
                    assert(!node_takes(enabled[k as int], accepted[k as int]));
                } else if i < k {
                    assert(!node_takes(enabled[i as int], accepted[i as int]));
                }
            },
            None => {
                assert(!node_takes(enabled[i as int], accepted[i as int]));
            },
        },
        None => match o2 {
            Some(k) => {
                assert(!node_takes(enabled[k as int], accepted[k as int]));
            },
            None => {},
        },
    }
}

/// A message is kept by the first enabled node whose worker accepts it, and
/// it is unhandled exactly when no enabled node's worker accepts it.
pub proof fn lemma_chain_takes_first_acceptor(enabled: Seq<bool>, accepted: Seq<bool>)
    ensures
        is_first_taker(enabled, accepted, chain_taker(enabled, accepted)),
{
    lemma_taker_from(enabled, accepted, 0);
}

/// A message is kept by at most one node: whatever node keeps it is the only
/// node that fits the first-taker description.
pub proof fn lemma_chain_taker_is_unique(enabled: Seq<bool>, accepted: Seq<bool>, outcome: Option<nat>)
    requires
        is_first_taker(enabled, accepted, outcome),
    ensures
        outcome == chain_taker(enabled, accepted),
{
    lemma_chain_takes_first_acceptor(enabled, accepted);
    lemma_first_taker_unique(enabled, accepted, outcome, chain_taker(enabled, accepted));
}

/// Appending a worker (enabled, as a new worker is) changes the fate only of
/// messages that no earlier node keeps: those go to the new worker when it
/// accepts them, and stay unhandled otherwise.
pub proof fn lemma_added_worker_takes_only_unclaimed(
    enabled: Seq<bool>,
    accepted: Seq<bool>,
    new_accepts: bool,
)
    requires
        enabled.len() == accepted.len(),
    ensures
        chain_taker(enabled.push(true), accepted.push(new_accepts)) == (match chain_taker(
            enabled,
            accepted,
        ) {
            Some(i) => Some(i),
            None => if new_accepts {
                Some(enabled.len())
            } else {
                None
            },
        }),
{
    let e2 = enabled.push(true);
    let a2 = accepted.push(new_accepts);
    let expected = match chain_taker(enabled, accepted) {
        Some(i) => Some(i),
        None => if new_accepts {
            Some(enabled.len())
        } else {
            None
        },
    };
    lemma_chain_takes_first_acceptor(enabled, accepted);
    assert forall|j: int| 0 <= j < enabled.len() implies #[trigger] node_takes(e2[j], a2[j])
        == node_takes(enabled[j], accepted[j]) by {}
    assert(e2[enabled.len() as int] == true);
    assert(a2[enabled.len() as int] == new_accepts);
    assert(is_first_taker(e2, a2, expected));
    lemma_chain_taker_is_unique(e2, a2, expected);
}

/// Disabling node `i` never lets it keep a message, and changes the fate only
/// of the messages it used to keep: every other message ends where it did.
pub proof fn lemma_disabled_worker_passes_on(enabled: Seq<bool>, accepted: Seq<bool>, i: nat)
    requires
        i < enabled.len(),
    ensures
        chain_taker(enabled.update(i as int, false), accepted) != Some(i),
        chain_taker(enabled, accepted) != Some(i) ==> chain_taker(
            enabled.update(i as int, false),
            accepted,
        ) == chain_taker(enabled, accepted),
{
    let e2 = enabled.update(i as int, false);
    lemma_chain_takes_first_acceptor(e2, accepted);
    lemma_chain_takes_first_acceptor(enabled, accepted);
    assert(!node_takes(e2[i as int], accepted[i as int]));
    if chain_taker(enabled, accepted) != Some(i) {
        assert forall|j: int| 0 <= j < enabled.len() && j != i implies #[trigger] node_takes(
            e2[j],
            accepted[j],
        ) == node_takes(enabled[j], accepted[j]) by {}
        match chain_taker(enabled, accepted) {
            Some(k) => {
                assert(node_takes(e2[k as int], accepted[k as int]));
            },
            None => {},
        }
        assert(is_first_taker(e2, accepted, chain_taker(enabled, accepted)));
        lemma_chain_taker_is_unique(e2, accepted, chain_taker(enabled, accepted));
    }
}

} // verus!
