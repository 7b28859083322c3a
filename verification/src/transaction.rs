//! The records that drive an account.

use vstd::prelude::*;

verus! {

/// What a record asks of the account it is addressed to.
///
/// A record kept in an account's history carries the same tag to say where
/// its deposit stands: `Deposit` for a settled deposit, `Withdrawal` for a
/// settled withdrawal, `Dispute` for a deposit under dispute and `Chargeback`
/// for a deposit that was charged back.
#[derive(Clone, Copy, Debug, PartialEq, Eq, Structural)]
pub enum TransactionType {
    Deposit,
    Withdrawal,
    Dispute,
    Resolve,
    Chargeback,
}

/// One input event. `tx` names a new transaction for a deposit or a
/// withdrawal, and an earlier deposit for the other three kinds.
#[derive(Clone, Copy, Debug, PartialEq, Eq)]
pub struct Transaction {
    pub transaction_type: TransactionType,
    pub client: u16,
    pub tx: u32,
    pub amount: Option<i64>,
}

impl Transaction {
    pub fn new(transaction_type: TransactionType, client: u16, tx: u32, amount: Option<i64>) -> (t:
        Self)
        ensures
            t == (Transaction { transaction_type, client, tx, amount }),
    {
        Self { transaction_type, client, tx, amount }
    }

    /// The amount is present and strictly positive.
    pub open spec fn has_valid_amount(self) -> bool {
        self.amount matches Some(a) && a > 0
    }
}

} // verus!
