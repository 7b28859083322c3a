//! The loop that works off an account's queue.

use crate::account::{Account, AccountView, TransactionProcessingError};
use vstd::prelude::*;

verus! {

/// Why the driver stopped.
#[derive(Clone, Copy, Debug, PartialEq, Eq, Structural)]
pub enum DrainEnd {
    /// The queue is empty: all the work there was is done.
    Completed,
    /// The account is frozen: what is left in its queue is abandoned.
    Locked,
    /// The record at the front of the queue would take a balance beyond what
    /// can be stored. It was not touched and is still at the front.
    OutOfRange,
}

/// What one run of the driver did.
#[derive(Clone, Copy, Debug, PartialEq, Eq)]
pub struct DrainReport {
    /// Records that were accepted and took effect.
    pub applied: usize,
    /// Records that were rejected and dropped.
    pub rejected: usize,
    /// Records that are still in the queue.
    pub left: usize,
    pub end: DrainEnd,
}

impl AccountView {
    /// Why the driver stops in this state, if it does.
    pub open spec fn halted(self) -> Option<DrainEnd> {
        if self.locked {
            Some(DrainEnd::Locked)
        } else if self.pending.len() == 0 {
            Some(DrainEnd::Completed)
        } else if !self.next().in_range() {
            Some(DrainEnd::OutOfRange)
        } else {
            None
        }
    }

    /// The state in which the driver stops when it starts in this one.
    pub open spec fn drained(self) -> AccountView
        decreases self.pending.len(),
    {
        if self.halted() is Some {
            self
        } else {
            self.next().drained()
        }
    }

    /// How many records the driver applies on the way from here to where it
    /// stops.
    pub open spec fn drain_applied(self) -> nat
        decreases self.pending.len(),
    {
        if self.halted() is Some {
            0
        } else if self.outcome() is Ok {
            1 + self.next().drain_applied()
        } else {
            self.next().drain_applied()
        }
    }

    /// How many records the driver finds rejected on the way from here to
    /// where it stops.
    pub open spec fn drain_rejected(self) -> nat
        decreases self.pending.len(),
    {
        if self.halted() is Some {
            0
        } else if self.outcome() is Ok {
            self.next().drain_rejected()
        } else {
            1 + self.next().drain_rejected()
        }
    }
}

impl DrainReport {
    /// This is the report of a run of the driver that starts with `account`.
    pub open spec fn describes(self, account: AccountView) -> bool {
        &&& self.applied == account.drain_applied()
        &&& self.rejected == account.drain_rejected()
        &&& self.left == account.drained().pending.len()
        &&& account.drained().halted() == Some(self.end)
    }
}

impl Account {
    /// Processes the queue from its front until it is empty, the account is
    /// frozen, or the next record cannot be applied within the range of the
    /// balances. A rejected record is counted and the loop goes on.
    pub fn drain(&mut self) -> (report: DrainReport)
        requires
            old(self).wf(),
        ensures
            final(self).wf(),
            final(self)@ == old(self)@.drained(),
            final(self)@.client == old(self)@.client,
            report.describes(old(self)@),
    {
        let mut applied: usize = 0;
        let mut rejected: usize = 0;
        let end: DrainEnd;
        let queued: usize = self.pending_len();
        loop
            invariant
                self.wf(),
                self@.client == old(self)@.client,
                self@.drained() == old(self)@.drained(),
                applied + self@.drain_applied() == old(self)@.drain_applied(),
                rejected + self@.drain_rejected() == old(self)@.drain_rejected(),
                applied + rejected + self@.pending.len() <= queued,
            ensures
                self@.halted() == Some(end),
            decreases self@.pending.len(),
        {
            if !self.next_fits() {
                end = DrainEnd::OutOfRange;
                break ;
            }
            match self.process_pending_transaction() {
                Ok(()) => {
                    applied = applied + 1;
                },
                Err(TransactionProcessingError::NoTransactionToProcess) => {
                    end = DrainEnd::Completed;
                    break ;
                },
                Err(TransactionProcessingError::AccountLocked(_)) => {
                    end = DrainEnd::Locked;
                    break ;
                },
                Err(_) => {
                    rejected = rejected + 1;
                },
            }
        }
        DrainReport { applied, rejected, left: self.pending_len(), end }
    }
}

} // verus!
