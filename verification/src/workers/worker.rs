//! The trait that users implement to take part in the bus.
use vstd::prelude::*;

verus! {

/// A worker sits at one node of the bus's chain. For each message that
/// reaches its node while the node is enabled, the bus first asks
/// `check_msg`; if the worker accepts the message it is given to
/// `handle_msg` and goes no further, otherwise it moves on to the next node.
///
/// What a worker answers and returns is a matter of the worker's own state
/// and the message: `accepts` and `handles` name them, and an implementation
/// keeps to them. A worker also keeps the histories of the messages it was
/// asked about and given to handle, and hands them out through `checked` and
/// `handled`: each call of `check_msg` appends its message to the first and
/// leaves the second as it is, and each call of `handle_msg` does the
/// converse. Otherwise either call may change the worker's state.
pub trait Worker<TMsg, TResult>: Sync + Send where TMsg: Send, TResult: Send {
    /// The answer `check_msg` gives for `msg` when the worker is in this state.
    spec fn accepts(&self, msg: &TMsg) -> bool;

    /// What `handle_msg` returns for `msg` when the worker is in this state.
    spec fn handles(&self, msg: &TMsg) -> TResult;

    /// The messages this worker has been asked about by `check_msg`, oldest
    /// first.
    spec fn checked(&self) -> Vec<TMsg>;

    /// The messages this worker has been given to handle by `handle_msg`,
    /// oldest first.
    spec fn handled(&self) -> Vec<TMsg>;

    /// Whether this worker takes the message.
    fn check_msg(&mut self, msg: &TMsg) -> (accepted: bool)
        ensures
            accepted == old(self).accepts(msg),
            final(self).checked()@ == old(self).checked()@.push(*msg),
            final(self).handled()@ == old(self).handled()@,
    ;

    /// Processes a message that this worker took.
    fn handle_msg(&mut self, msg: &TMsg) -> (result: TResult)
        ensures
            result == old(self).handles(msg),
            final(self).checked()@ == old(self).checked()@,
            final(self).handled()@ == old(self).handled()@.push(*msg),
    ;
}

/// A boxed worker, such as `Box<dyn Worker<..>>`, works as the worker it holds.
impl<TMsg, TResult, W> Worker<TMsg, TResult> for Box<W> where
    TMsg: Send,
    TResult: Send,
    W: Worker<TMsg, TResult> + ?Sized,
 {
    open spec fn accepts(&self, msg: &TMsg) -> bool {
        (**self).accepts(msg)
    }

    open spec fn handles(&self, msg: &TMsg) -> TResult {
        (**self).handles(msg)
    }

    open spec fn checked(&self) -> Vec<TMsg> {
        (**self).checked()
    }

    open spec fn handled(&self) -> Vec<TMsg> {
        (**self).handled()
    }

    fn check_msg(&mut self, msg: &TMsg) -> bool {
        (**self).check_msg(msg)
    }

    fn handle_msg(&mut self, msg: &TMsg) -> TResult {
        (**self).handle_msg(msg)
    }
}

} // verus!
