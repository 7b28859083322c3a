//! One client's account and the rules by which records change it.

use crate::transaction::{Transaction, TransactionType};
use std::collections::{HashMap, VecDeque};
use vstd::prelude::*;

verus! {

/// Why a call that processes the next record did not apply one.
#[derive(Clone, Copy, Debug, PartialEq, Eq, Structural)]
pub enum TransactionProcessingError {
    /// The queue is empty: the account has caught up with its input.
    NoTransactionToProcess,
    /// The account is frozen. The number is the length of its queue, reduced
    /// to 32 bits: those records will never be applied.
    AccountLocked(u32),
    /// A deposit or withdrawal without an amount, or with one that is not
    /// strictly positive.
    InvalidAmount,
    /// A withdrawal of more than is available.
    InsufficientAmount,
    /// A dispute that names no settled deposit.
    InvalidDisputeTarget,
    /// A resolve or chargeback that names no deposit under dispute.
    TransactionNotUnderDispute,
}

/// The mathematical value of an [`Account`]: balances as unbounded integers,
/// the queue as a sequence and the history as a map.
pub struct AccountView {
    pub client: u16,
    pub available: int,
    pub held: int,
    pub total: int,
    pub locked: bool,
    pub pending: Seq<Transaction>,
    pub settled: Map<u32, Transaction>,
}

/// `x` can be stored in a balance.
pub open spec fn representable(x: int) -> bool {
    i64::MIN <= x <= i64::MAX
}

impl AccountView {
    /// The account that is created for `client` when its first record arrives.
    pub open spec fn opened(client: u16, first: Transaction) -> AccountView {
        AccountView {
            client,
            available: 0,
            held: 0,
            total: 0,
            locked: false,
            pending: seq![first],
            settled: Map::empty(),
        }
    }

    /// The same account with `t` appended to its queue.
    pub open spec fn enqueue(self, t: Transaction) -> AccountView {
        AccountView { pending: self.pending.push(t), ..self }
    }

    /// The balance invariant.
    pub open spec fn balanced(self) -> bool {
        self.total == self.available + self.held
    }

    /// The balances add up, and every record in the history is filed under
    /// its own identifier, carries a positive amount and is tagged as a
    /// deposit, a withdrawal, a deposit under dispute or a charged-back
    /// deposit.
    pub open spec fn wf(self) -> bool {
        &&& self.balanced()
        &&& forall|tx: u32| #[trigger]
            self.settled.contains_key(tx) ==> {
                &&& self.settled[tx].tx == tx
                &&& self.settled[tx].has_valid_amount()
                &&& !(self.settled[tx].transaction_type is Resolve)
            }
    }

    /// All three balances can be stored.
    pub open spec fn in_range(self) -> bool {
        &&& representable(self.available)
        &&& representable(self.held)
        &&& representable(self.total)
    }

    /// `tx` names a settled deposit.
    pub open spec fn disputable(self, tx: u32) -> bool {
        self.settled.contains_key(tx) && self.settled[tx].transaction_type is Deposit
    }

    /// `tx` names a deposit under dispute.
    pub open spec fn under_dispute(self, tx: u32) -> bool {
        self.settled.contains_key(tx) && self.settled[tx].transaction_type is Dispute
    }

    /// The amount of the record that the history holds for `tx`.
    pub open spec fn settled_amount(self, tx: u32) -> int {
        self.settled[tx].amount.unwrap() as int
    }

    /// The same account with its balances replaced; the total follows.
    pub open spec fn with_balances(self, available: int, held: int) -> AccountView {
        AccountView { available, held, total: available + held, ..self }
    }

    /// The same account with the record for `tx` tagged anew.
    pub open spec fn retagged(self, tx: u32, tag: TransactionType) -> AccountView {
        AccountView {
            settled: self.settled.insert(
                tx,
                Transaction { transaction_type: tag, ..self.settled[tx] },
            ),
            ..self
        }
    }

    /// The same account with `t` filed in the history under its identifier.
    pub open spec fn remembering(self, t: Transaction) -> AccountView {
        AccountView { settled: self.settled.insert(t.tx, t), ..self }
    }

    /// Whether an unlocked account in this state accepts `t`, and if not, why.
    pub open spec fn verdict(self, t: Transaction) -> Result<(), TransactionProcessingError> {
        match t.transaction_type {
            TransactionType::Deposit => if t.has_valid_amount() {
                Ok(())
            } else {
                Err(TransactionProcessingError::InvalidAmount)
            },
            TransactionType::Withdrawal => if !t.has_valid_amount() {
                Err(TransactionProcessingError::InvalidAmount)
            } else if self.available - t.amount.unwrap() < 0 {
                Err(TransactionProcessingError::InsufficientAmount)
            } else {
                Ok(())
            },
            TransactionType::Dispute => if self.disputable(t.tx) {
                Ok(())
            } else {
                Err(TransactionProcessingError::InvalidDisputeTarget)
            },
            TransactionType::Resolve | TransactionType::Chargeback => if self.under_dispute(t.tx) {
                Ok(())
            } else {
                Err(TransactionProcessingError::TransactionNotUnderDispute)
            },
        }
    }

    /// What an accepted `t` does to the balances, the history and the lock.
    pub open spec fn apply(self, t: Transaction) -> AccountView {
        match t.transaction_type {
            TransactionType::Deposit => self.with_balances(
                self.available + t.amount.unwrap(),
                self.held,
            ).remembering(t),
            TransactionType::Withdrawal => self.with_balances(
                self.available - t.amount.unwrap(),
                self.held,
            ).remembering(t),
            TransactionType::Dispute => self.with_balances(
                self.available - self.settled_amount(t.tx),
                self.held + self.settled_amount(t.tx),
            ).retagged(t.tx, TransactionType::Dispute),
            TransactionType::Resolve => self.with_balances(
                self.available + self.settled_amount(t.tx),
                self.held - self.settled_amount(t.tx),
            ).retagged(t.tx, TransactionType::Deposit),
            TransactionType::Chargeback => AccountView {
                locked: true,
                ..self.with_balances(self.available, self.held - self.settled_amount(t.tx))
            }.retagged(t.tx, TransactionType::Chargeback),
        }
    }

    /// The same account without the record at the front of its queue.
    pub open spec fn popped(self) -> AccountView {
        AccountView { pending: self.pending.drop_first(), ..self }
    }

    /// What processing the next record returns.
    pub open spec fn outcome(self) -> Result<(), TransactionProcessingError> {
        if self.locked {
            Err(TransactionProcessingError::AccountLocked(self.pending.len() as u32))
        } else if self.pending.len() == 0 {
            Err(TransactionProcessingError::NoTransactionToProcess)
        } else {
            self.verdict(self.pending[0])
        }
    }

    /// The account after processing the next record. A locked account and an
    /// empty queue stay as they are. Otherwise the front record leaves the
    /// queue, and takes effect only if it is accepted.
    pub open spec fn next(self) -> AccountView {
        if self.locked || self.pending.len() == 0 {
            self
        } else if self.verdict(self.pending[0]) is Ok {
            self.popped().apply(self.pending[0])
        } else {
            self.popped()
        }
    }
}

/// What an account shows of itself once its records are processed: the
/// balances and the lock, without the queue and the history.
#[derive(Clone, Copy, Debug, PartialEq, Eq)]
pub struct AccountSnapshot {
    pub client: u16,
    pub available: i64,
    pub held: i64,
    pub total: i64,
    pub locked: bool,
}

impl AccountView {
    /// The snapshot of an account whose balances are in range.
    pub open spec fn snapshot(self) -> AccountSnapshot {
        AccountSnapshot {
            client: self.client,
            available: self.available as i64,
            held: self.held as i64,
            total: self.total as i64,
            locked: self.locked,
        }
    }
}

/// A client's balances, the records waiting to be applied and the deposits
/// and withdrawals that were.
#[derive(Debug)]
pub struct Account {
    client: u16,
    available: i64,
    held: i64,
    total: i64,
    locked: bool,
    pending_transactions: VecDeque<Transaction>,
    transactions_history: HashMap<u32, Transaction>,
}

impl View for Account {
    type V = AccountView;

    closed spec fn view(&self) -> AccountView {
        AccountView {
            client: self.client,
            available: self.available as int,
            held: self.held as int,
            total: self.total as int,
            locked: self.locked,
            pending: self.pending_transactions@,
            settled: self.transactions_history@,
        }
    }
}

impl Account {
    /// The invariant of every account that this module hands out.
    pub open spec fn wf(&self) -> bool {
        self@.wf() && self@.in_range()
    }

    pub fn new(id: u16, initial_transaction: Transaction) -> (account: Self)
        ensures
            account.wf(),
            account@ == AccountView::opened(id, initial_transaction),
    {
        let mut pending_transactions = VecDeque::new();
        pending_transactions.push_back(initial_transaction);
        Self {
            client: id,
            available: 0,
            held: 0,
            total: 0,
            locked: false,
            pending_transactions,
            transactions_history: HashMap::new(),
        }
    }

    pub fn add_transaction(&mut self, new_transaction: Transaction)
        requires
            old(self).wf(),
        ensures
            final(self).wf(),
            final(self)@ == old(self)@.enqueue(new_transaction),
    {
        self.pending_transactions.push_back(new_transaction);
    }

    /// Sets the total to the sum of the other two balances.
    fn assert_balance(&mut self)
        requires
            representable(old(self).available + old(self).held),
        ensures
            final(self)@ == old(self)@.with_balances(old(self)@.available, old(self)@.held),
            final(self)@.balanced(),
    {
        self.total = self.available + self.held;
        assert(self.total == self.available + self.held);
    }

    /// Refuses a locked account, with the number of records it still holds.
    fn is_account_state_valid_for_transaction(&self) -> (r: Result<
        (),
        TransactionProcessingError,
    >)
        ensures
            self@.locked ==> r == Err::<(), _>(
                TransactionProcessingError::AccountLocked(self@.pending.len() as u32),
            ),
            !self@.locked ==> r is Ok,
    {
        if self.locked {
            Err(
                TransactionProcessingError::AccountLocked(
                    #[verifier::truncate]
                    (self.pending_transactions.len() as u32),
                ),
            )
        } else {
            Ok(())
        }
    }

    /// Adds a positive `amount` to what is available.
    fn deposit(&mut self, amount: i64) -> (r: Result<(), TransactionProcessingError>)
        requires
            !old(self)@.locked && amount > 0 ==> old(self)@.with_balances(
                old(self)@.available + amount,
                old(self)@.held,
            ).in_range(),
        ensures
            old(self)@.locked ==> final(self)@ == old(self)@ && r == Err::<(), _>(
                TransactionProcessingError::AccountLocked(old(self)@.pending.len() as u32),
            ),
            !old(self)@.locked && amount <= 0 ==> final(self)@ == old(self)@ && r == Err::<(), _>(
                TransactionProcessingError::InvalidAmount,
            ),
            !old(self)@.locked && amount > 0 ==> r is Ok && final(self)@ == old(
                self,
            )@.with_balances(old(self)@.available + amount, old(self)@.held),
    {
        self.is_account_state_valid_for_transaction()?;

        if amount > 0 {
            self.available = self.available + amount;
            self.assert_balance();
            Ok(())
        } else {
            Err(TransactionProcessingError::InvalidAmount)
        }
    }

    /// Takes a positive `amount` out of what is available, if that much is there.
    fn withdraw(&mut self, amount: i64) -> (r: Result<(), TransactionProcessingError>)
        requires
            !old(self)@.locked && 0 < amount <= old(self)@.available ==> old(self)@.with_balances(
                old(self)@.available - amount,
                old(self)@.held,
            ).in_range(),
        ensures
            old(self)@.locked ==> final(self)@ == old(self)@ && r == Err::<(), _>(
                TransactionProcessingError::AccountLocked(old(self)@.pending.len() as u32),
            ),
            !old(self)@.locked && amount <= 0 ==> final(self)@ == old(self)@ && r == Err::<(), _>(
                TransactionProcessingError::InvalidAmount,
            ),
            !old(self)@.locked && amount > 0 && old(self)@.available - amount < 0 ==> final(self)@
                == old(self)@ && r == Err::<(), _>(TransactionProcessingError::InsufficientAmount),
            !old(self)@.locked && 0 < amount <= old(self)@.available ==> r is Ok && final(self)@
                == old(self)@.with_balances(old(self)@.available - amount, old(self)@.held),
    {
        self.is_account_state_valid_for_transaction()?;

        if amount > 0 {
            if self.available >= amount {
                self.available = self.available - amount;
                self.assert_balance();
                Ok(())
            } else {
                Err(TransactionProcessingError::InsufficientAmount)
            }
        } else {
            Err(TransactionProcessingError::InvalidAmount)
        }
    }

    /// Moves the amount of the settled deposit `transaction_id` from available
    /// to held and tags that deposit as under dispute.
    fn dispute(&mut self, transaction_id: u32) -> (r: Result<(), TransactionProcessingError>)
        requires
            old(self)@.wf(),
            old(self)@.disputable(transaction_id) ==> old(self)@.with_balances(
                old(self)@.available - old(self)@.settled_amount(transaction_id),
                old(self)@.held + old(self)@.settled_amount(transaction_id),
            ).in_range(),
        ensures
            old(self)@.disputable(transaction_id) ==> r is Ok && final(self)@ == old(
                self,
            )@.with_balances(
                old(self)@.available - old(self)@.settled_amount(transaction_id),
                old(self)@.held + old(self)@.settled_amount(transaction_id),
            ).retagged(transaction_id, TransactionType::Dispute),
            !old(self)@.disputable(transaction_id) ==> final(self)@ == old(self)@ && r == Err::<
                (),
                _,
            >(TransactionProcessingError::InvalidDisputeTarget),
    {
        if let Some(found) = self.transactions_history.get(&transaction_id) {
            let transaction = *found;
            if transaction.transaction_type == TransactionType::Deposit {
                let amount = transaction.amount.unwrap();

                self.transactions_history.insert(
                    transaction_id,
                    Transaction { transaction_type: TransactionType::Dispute, ..transaction },
                );
                self.available = self.available - amount;
                self.held = self.held + amount;
                self.assert_balance();
                return Ok(());
            }
        }
        Err(TransactionProcessingError::InvalidDisputeTarget)
    }

    /// The record of the deposit `dispute_id`, if it is under dispute.
    fn find_dispute_transaction(&self, dispute_id: u32) -> (r: Result<
        Transaction,
        TransactionProcessingError,
    >)
        ensures
            self@.under_dispute(dispute_id) ==> r == Ok::<_, TransactionProcessingError>(
                self@.settled[dispute_id],
            ),
            !self@.under_dispute(dispute_id) ==> r == Err::<Transaction, _>(
                TransactionProcessingError::TransactionNotUnderDispute,
            ),
    {
        if let Some(found) = self.transactions_history.get(&dispute_id) {
            if found.transaction_type == TransactionType::Dispute {
                return Ok(*found);
            }
        }
        Err(TransactionProcessingError::TransactionNotUnderDispute)
    }

    /// Ends the dispute on `dispute_id` in the client's favour: the held amount
    /// is available again and the deposit is settled as before.
    fn resolve(&mut self, dispute_id: u32) -> (r: Result<(), TransactionProcessingError>)
        requires
            old(self)@.wf(),
            old(self)@.under_dispute(dispute_id) ==> old(self)@.with_balances(
                old(self)@.available + old(self)@.settled_amount(dispute_id),
                old(self)@.held - old(self)@.settled_amount(dispute_id),
            ).in_range(),
        ensures
            old(self)@.under_dispute(dispute_id) ==> r is Ok && final(self)@ == old(
                self,
            )@.with_balances(
                old(self)@.available + old(self)@.settled_amount(dispute_id),
                old(self)@.held - old(self)@.settled_amount(dispute_id),
            ).retagged(dispute_id, TransactionType::Deposit),
            !old(self)@.under_dispute(dispute_id) ==> final(self)@ == old(self)@ && r == Err::<
                (),
                _,
            >(TransactionProcessingError::TransactionNotUnderDispute),
    {
        let dispute_transaction = self.find_dispute_transaction(dispute_id)?;
        let amount = dispute_transaction.amount.unwrap();

        self.transactions_history.insert(
            dispute_id,
            Transaction { transaction_type: TransactionType::Deposit, ..dispute_transaction },
        );
        self.held = self.held - amount;
        self.available = self.available + amount;
        self.assert_balance();
        Ok(())
    }

    /// Ends the dispute on `dispute_id` against the client: the held amount
    /// leaves the account, and the account is frozen.
    fn chargeback(&mut self, dispute_id: u32) -> (r: Result<(), TransactionProcessingError>)
        requires
            old(self)@.wf(),
            old(self)@.under_dispute(dispute_id) ==> old(self)@.with_balances(
                old(self)@.available,
                old(self)@.held - old(self)@.settled_amount(dispute_id),
            ).in_range(),
        ensures
            old(self)@.under_dispute(dispute_id) ==> r is Ok && final(self)@ == (AccountView {
                locked: true,
                ..old(self)@.with_balances(
                    old(self)@.available,
                    old(self)@.held - old(self)@.settled_amount(dispute_id),
                )
            }).retagged(dispute_id, TransactionType::Chargeback),
            !old(self)@.under_dispute(dispute_id) ==> final(self)@ == old(self)@ && r == Err::<
                (),
                _,
            >(TransactionProcessingError::TransactionNotUnderDispute),
    {
        let dispute_transaction = self.find_dispute_transaction(dispute_id)?;
        let amount = dispute_transaction.amount.unwrap();

        self.transactions_history.insert(
            dispute_id,
            Transaction { transaction_type: TransactionType::Chargeback, ..dispute_transaction },
        );
        self.held = self.held - amount;
        self.locked = true;
        self.assert_balance();
        Ok(())
    }

    /// Takes the record at the front of the queue and applies it.
    ///
    /// A locked account refuses, whatever its queue holds, and an empty queue
    /// is reported as such; neither changes anything. Any other record leaves
    /// the queue for good: an accepted one changes the account as its kind
    /// prescribes, a rejected one changes nothing else.
    ///
    /// The balances that the call leads to must be storable.
    pub fn process_pending_transaction(&mut self) -> (r: Result<(), TransactionProcessingError>)
        requires
            old(self).wf(),
            old(self)@.next().in_range(),
        ensures
            final(self).wf(),
            final(self)@ == old(self)@.next(),
            r == old(self)@.outcome(),
    {
        self.is_account_state_valid_for_transaction()?;
        let transaction = match self.pending_transactions.pop_front() {
            Some(t) => t,
            None => return Err(TransactionProcessingError::NoTransactionToProcess),
        };
        match transaction.transaction_type {
            TransactionType::Deposit => {
                let amount = match transaction.amount {
                    Some(a) => a,
                    None => {
                        return Err(TransactionProcessingError::InvalidAmount);
                    },
                };

                self.deposit(amount)?;
                self.transactions_history.insert(transaction.tx, transaction);
            },
            TransactionType::Withdrawal => {
                let amount = match transaction.amount {
                    Some(a) => a,
                    None => {
                        return Err(TransactionProcessingError::InvalidAmount);
                    },
                };

                self.withdraw(amount)?;
                self.transactions_history.insert(transaction.tx, transaction);
            },
            TransactionType::Dispute => {
                self.dispute(transaction.tx)?;
            },
            TransactionType::Resolve => {
                self.resolve(transaction.tx)?;
            },
            TransactionType::Chargeback => {
                self.chargeback(transaction.tx)?;
            },
        }
        Ok(())
    }

    pub fn client(&self) -> (client: u16)
        ensures
            client == self@.client,
    {
        self.client
    }

    pub fn available(&self) -> (available: i64)
        ensures
            available == self@.available,
    {
        self.available
    }

    pub fn held(&self) -> (held: i64)
        ensures
            held == self@.held,
    {
        self.held
    }

    pub fn total(&self) -> (total: i64)
        ensures
            total == self@.total,
    {
        self.total
    }

    pub fn locked(&self) -> (locked: bool)
        ensures
            locked == self@.locked,
    {
        self.locked
    }

    pub fn snapshot(&self) -> (snapshot: AccountSnapshot)
        ensures
            snapshot == self@.snapshot(),
    {
        AccountSnapshot {
            client: self.client,
            available: self.available,
            held: self.held,
            total: self.total,
            locked: self.locked,
        }
    }

    /// The number of records that wait in the queue.
    pub fn pending_len(&self) -> (n: usize)
        ensures
            n == self@.pending.len(),
    {
        self.pending_transactions.len()
    }

    /// Whether the balances that the next call of
    /// [`Account::process_pending_transaction`] leads to can be stored. Where
    /// this is `false`, that call must not be made.
    pub fn next_fits(&self) -> (fits: bool)
        requires
            self.wf(),
        ensures
            fits == self@.next().in_range(),
    {
        if self.locked || self.pending_transactions.len() == 0 {
            return true;
        }
        let transaction = self.pending_transactions[0];
        let available = self.available as i128;
        let held = self.held as i128;
        match transaction.transaction_type {
            TransactionType::Deposit => match transaction.amount {
                Some(amount) => amount <= 0 || balances_fit(available + amount as i128, held),
                None => true,
            },
            TransactionType::Withdrawal => match transaction.amount {
                Some(amount) => amount <= 0 || available < amount as i128 || balances_fit(
                    available - amount as i128,
                    held,
                ),
                None => true,
            },
            TransactionType::Dispute => match self.transactions_history.get(&transaction.tx) {
                Some(found) => {
                    let amount = found.amount.unwrap() as i128;
                    found.transaction_type != TransactionType::Deposit || balances_fit(
                        available - amount,
                        held + amount,
                    )
                },
                None => true,
            },
            TransactionType::Resolve => match self.find_dispute_transaction(transaction.tx) {
                Ok(found) => {
                    let amount = found.amount.unwrap() as i128;
                    balances_fit(available + amount, held - amount)
                },
                Err(_) => true,
            },
            TransactionType::Chargeback => match self.find_dispute_transaction(transaction.tx) {
                Ok(found) => balances_fit(available, held - found.amount.unwrap() as i128),
                Err(_) => true,
            },
        }
    }
}

/// Whether `available`, `held` and their sum can each be stored in a balance.
fn balances_fit(available: i128, held: i128) -> (fit: bool)
    requires
        2 * i64::MIN <= available <= 2 * i64::MAX,
        2 * i64::MIN <= held <= 2 * i64::MAX,
    ensures
        fit == (representable(available as int) && representable(held as int) && representable(
            available + held,
        )),
{
    let total = available + held;
    i64::MIN as i128 <= available && available <= i64::MAX as i128 && i64::MIN as i128 <= held
        && held <= i64::MAX as i128 && i64::MIN as i128 <= total && total <= i64::MAX as i128
}

} // verus!
