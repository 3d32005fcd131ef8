//! The state of a one-shot wake-up signal shared between threads.
use vstd::prelude::*;

verus! {

/// What a wait does to a signal: it goes through exactly when the signal is
/// set (`.0`), and afterwards the signal is clear (`.1`).
pub open spec fn wait_outcome(set: bool) -> (bool, bool) {
    (set, false)
}

/// The flag behind a signal: `true` while a notification is pending.
///
/// A waiter goes through only when the flag is set, and going through clears
/// it, so one notification releases one wait; notifications do not pile up.
pub struct Signal {
    state: bool,
}

impl View for Signal {
    type V = bool;

    closed spec fn view(&self) -> bool {
        self.state
    }
}

impl Signal {
    /// A signal with no pending notification.
    pub fn new() -> (s: Self)
        ensures
            !s@,
    {
        Signal { state: false }
    }

    /// Records a notification: the signal becomes set.
    pub fn notify(&mut self)
        ensures
            final(self)@,
    {
        self.state = true;
    }

    /// One attempt of a waiter: goes through (returns `true`) exactly when a
    /// notification is pending, and consumes it; otherwise the waiter must
    /// keep waiting and the signal stays clear.
    pub fn try_wait(&mut self) -> (woke: bool)
        ensures
            (woke, final(self)@) == wait_outcome(old(self)@),
            woke == old(self)@,
            !final(self)@,
    {
        let woke = self.state;
        self.state = false;
        woke
    }

    /// Whether a notification is pending.
    pub fn is_set(&self) -> (set: bool)
        ensures
            set == self@,
    {
        self.state
    }
}

/// A notification followed by a wait lets the wait through and leaves the
/// signal clear, whatever state the signal was in before: `notify` leaves it
/// set, and a wait on a set signal goes through and clears it.
pub proof fn lemma_notify_releases_wait()
    ensures
        wait_outcome(true) == (true, false),
{
}

/// Notifications do not accumulate: however many notifications came before,
/// the signal is just set, the first wait goes through and the next one has
/// to wait again.
pub proof fn lemma_notifications_do_not_accumulate()
    ensures
        wait_outcome(wait_outcome(true).1).0 == false,
{
}

/// One step on a signal.
pub enum SignalStep {
    /// `notify`.
    Notify,
    /// One attempt of a waiter, `try_wait`.
    Wait,
}

/// The state of a signal after `steps`, in order, from state `set`.
pub open spec fn state_after(set: bool, steps: Seq<SignalStep>) -> bool
    decreases steps.len(),
{
    if steps.len() == 0 {
        set
    } else {
        match steps.last() {
            SignalStep::Notify => true,
            SignalStep::Wait => wait_outcome(state_after(set, steps.drop_last())).1,
        }
    }
}

/// How many of the waits among `steps`, run from state `set`, go through.
pub open spec fn waits_through(set: bool, steps: Seq<SignalStep>) -> nat
    decreases steps.len(),
{
    if steps.len() == 0 {
        0
    } else {
        waits_through(set, steps.drop_last()) + match steps.last() {
            SignalStep::Notify => 0nat,
            SignalStep::Wait => if wait_outcome(state_after(set, steps.drop_last())).0 {
                1nat
            } else {
                0nat
            },
        }
    }
}

/// How many of `steps` are notifications.
pub open spec fn notifications(steps: Seq<SignalStep>) -> nat
    decreases steps.len(),
{
    if steps.len() == 0 {
        0
    } else {
        notifications(steps.drop_last()) + match steps.last() {
            SignalStep::Notify => 1nat,
            SignalStep::Wait => 0nat,
        }
    }
}

/// Over any run of a signal that starts clear, each notification lets at
/// most one wait through: no more waits go through than there were
/// notifications, and while the signal is set, one more notification has not
/// been used up yet.
pub proof fn lemma_each_notification_releases_at_most_one_wait(steps: Seq<SignalStep>)
    ensures
        waits_through(false, steps) + (if state_after(false, steps) {
            1nat
        } else {
            0nat
        }) <= notifications(steps),
    decreases steps.len(),
{
    if steps.len() > 0 {
        lemma_each_notification_releases_at_most_one_wait(steps.drop_last());
    }
}

/// A wait on a clear signal does not go through and leaves the signal clear.
pub proof fn lemma_wait_on_clear_blocks()
    ensures
        wait_outcome(false) == (false, false),
{
}

} // verus!
