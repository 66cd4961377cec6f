//! How many availability changes wait for the next timetable redraw. Each
//! handled reaction counts one, up to two; every five minutes the bot redraws
//! the timetables when the count is above zero and then sets it back to zero.

use vstd::prelude::*;
use crate::reactions::FlowAction;

verus! {

/// The count after one more handled reaction: one more, but at most two.
pub open spec fn count_after_change(count: nat) -> nat {
    if count + 1 <= 2 {
        count + 1
    } else {
        2
    }
}

/// The count after the caller records an action of a reaction's handling:
/// a counted change adds one, any other action leaves the count.
pub open spec fn count_after_outcome(count: nat, action: FlowAction) -> nat {
    if action is CountAndFinish {
        count_after_change(count)
    } else {
        count
    }
}

/// Whether the periodic check redraws the timetables, and the count after
/// it.
pub open spec fn check_outcome(count: nat) -> (bool, nat) {
    (count > 0, 0)
}

/// A handled reaction is never lost: the next periodic check after it
/// redraws the timetables.
pub proof fn law_change_leads_to_redraw(count: nat)
    ensures
        check_outcome(count_after_change(count)).0,
{
}

/// A redraw settles the pending changes: a second check right after a
/// first one does not redraw again.
pub proof fn law_check_settles(count: nat)
    ensures
        !check_outcome(check_outcome(count).1).0,
{
}

/// The count stays within zero and two whatever the order of changes and
/// checks.
pub proof fn law_count_stays_bounded(count: nat)
    requires
        count <= 2,
    ensures
        count_after_change(count) <= 2,
        check_outcome(count).1 <= 2,
{
}

/// The count of changes since the last redraw, never above two.
pub struct UpdateCounter {
    pending: u32,
}

impl UpdateCounter {
    #[verifier::type_invariant]
    spec fn bounded(self) -> bool {
        self.pending <= 2
    }

    /// The current count.
    pub closed spec fn count(self) -> nat {
        self.pending as nat
    }

    /// A counter with nothing pending.
    pub fn new() -> (counter: UpdateCounter)
        ensures
            counter.count() == 0,
    {
        UpdateCounter { pending: 0 }
    }

    /// The current count, which is never above two.
    pub fn pending(&self) -> (count: u32)
        ensures
            count == self.count(),
            count <= 2,
    {
        proof {
            use_type_invariant(self);
        }
        self.pending
    }

    /// Counts one more handled reaction, keeping the count at two at most.
    pub fn record_change(&mut self)
        ensures
            final(self).count() == count_after_change(old(self).count()),
    {
        proof {
            use_type_invariant(&*self);
        }
        let next = if self.pending + 1 <= 2 { self.pending + 1 } else { 2 };
        self.pending = next;
    }

    /// Records an action of a reaction's handling: a counted change
    /// (`CountAndFinish`) counts one more, any other action changes nothing.
    pub fn record_outcome(&mut self, action: FlowAction)
        ensures
            final(self).count() == count_after_outcome(old(self).count(), action),
    {
        match action {
            FlowAction::CountAndFinish => self.record_change(),
            _ => {},
        }
    }

    /// The periodic check: whether the timetables are to be redrawn, which
    /// is when some change is pending; the count is zero afterwards.
    pub fn tick(&mut self) -> (redraw: bool)
        ensures
            (redraw, final(self).count()) == check_outcome(old(self).count()),
    {
        if self.pending > 0 {
            self.pending = 0;
            true
        } else {
            false
        }
    }
}

} // verus!
