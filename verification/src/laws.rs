//! What holds of every account and of every ledger, whatever records arrive.
//!
//! Each statement is about the values of the two types, and is proved from
//! the definitions that the contracts of their functions are written in.

use crate::account::{AccountView, TransactionProcessingError};
use crate::bank::BankView;
use crate::driver::DrainEnd;
use crate::transaction::{Transaction, TransactionType};
use vstd::prelude::*;

verus! {

/// One thing that a caller can do to an account.
pub enum AccountOp {
    /// Append a record to the queue.
    Enqueue(Transaction),
    /// Process the record at the front of the queue.
    Process,
}

impl AccountView {
    /// The account after `op`.
    pub open spec fn step(self, op: AccountOp) -> AccountView {
        match op {
            AccountOp::Enqueue(t) => self.enqueue(t),
            AccountOp::Process => self.next(),
        }
    }

    /// The account after `ops`, one after the other.
    pub open spec fn run(self, ops: Seq<AccountOp>) -> AccountView
        decreases ops.len(),
    {
        if ops.len() == 0 {
            self
        } else {
            self.run(ops.drop_last()).step(ops.last())
        }
    }
}

/// Processing a record keeps the account well-formed, whether the record is
/// accepted or rejected, the queue empty or the account locked. In
/// particular the total is the sum of available and held afterwards, and
/// the account still belongs to the same client.
pub proof fn lemma_process_keeps_invariant(account: AccountView)
    requires
        account.wf(),
    ensures
        account.next().wf(),
        account.next().total == account.next().available + account.next().held,
        account.next().client == account.client,
{
}

/// No sequence of calls takes a well-formed account out of its invariant:
/// after each of them the total is the sum of available and held.
pub proof fn lemma_invariant_always(account: AccountView, ops: Seq<AccountOp>)
    requires
        account.wf(),
    ensures
        account.run(ops).wf(),
        account.run(ops).total == account.run(ops).available + account.run(ops).held,
        account.run(ops).client == account.client,
    decreases ops.len(),
{
    if ops.len() > 0 {
        lemma_invariant_always(account, ops.drop_last());
        lemma_process_keeps_invariant(account.run(ops.drop_last()));
    }
}

/// On an empty queue, processing reports that there is nothing to process
/// and changes nothing, however often it is called. (A locked account
/// reports the lock instead.)
pub proof fn lemma_empty_queue_is_reported(account: AccountView)
    requires
        !account.locked,
        account.pending.len() == 0,
    ensures
        account.outcome() == Err::<(), _>(TransactionProcessingError::NoTransactionToProcess),
        account.next() == account,
{
}

/// A locked account refuses to process, with the lock as the reason, and
/// stays exactly as it is.
pub proof fn lemma_locked_refuses(account: AccountView)
    requires
        account.locked,
    ensures
        account.outcome() == Err::<(), _>(
            TransactionProcessingError::AccountLocked(account.pending.len() as u32),
        ),
        account.next() == account,
{
}

/// Once an account is locked it stays locked, and nothing that is done to it
/// later changes a balance or the history.
pub proof fn lemma_locked_for_good(account: AccountView, ops: Seq<AccountOp>)
    requires
        account.locked,
    ensures
        account.run(ops).locked,
        account.run(ops).available == account.available,
        account.run(ops).held == account.held,
        account.run(ops).total == account.total,
        account.run(ops).settled == account.settled,
    decreases ops.len(),
{
    if ops.len() > 0 {
        lemma_locked_for_good(account, ops.drop_last());
    }
}

/// A deposit or withdrawal whose amount is missing, zero or negative is
/// never applied: the call fails and the balances, the lock and the history
/// stay as they are. Unless the account is locked, the reason given is the
/// invalid amount, and the record leaves the queue.
pub proof fn lemma_invalid_amount_rejected(account: AccountView)
    requires
        account.pending.len() > 0,
        account.pending[0].transaction_type is Deposit
            || account.pending[0].transaction_type is Withdrawal,
        !account.pending[0].has_valid_amount(),
    ensures
        account.outcome() is Err,
        account.next().available == account.available,
        account.next().held == account.held,
        account.next().total == account.total,
        account.next().locked == account.locked,
        account.next().settled == account.settled,
        !account.locked ==> account.outcome() == Err::<(), _>(
            TransactionProcessingError::InvalidAmount,
        ) && account.next() == account.popped(),
{
}

/// A withdrawal of more than is available is never applied: the call fails
/// and the balances, the lock and the history stay as they are. Unless the
/// account is locked, the reason given is the insufficient amount (the
/// invalid amount, if the amount is not positive), and the record leaves the
/// queue.
pub proof fn lemma_overdraft_rejected(account: AccountView)
    requires
        account.pending.len() > 0,
        account.pending[0].transaction_type is Withdrawal,
        account.pending[0].amount is Some,
        account.pending[0].amount.unwrap() > account.available,
    ensures
        account.outcome() is Err,
        account.next().available == account.available,
        account.next().held == account.held,
        account.next().total == account.total,
        account.next().locked == account.locked,
        account.next().settled == account.settled,
        !account.locked ==> account.outcome() == Err::<(), _>(
            if account.pending[0].amount.unwrap() > 0 {
                TransactionProcessingError::InsufficientAmount
            } else {
                TransactionProcessingError::InvalidAmount
            },
        ) && account.next() == account.popped(),
{
}

/// A rejected record, whatever the reason, leaves the queue and changes
/// nothing else.
pub proof fn lemma_rejected_changes_nothing(account: AccountView)
    requires
        !account.locked,
        account.pending.len() > 0,
        account.outcome() is Err,
    ensures
        account.next() == account.popped(),
{
}

/// A dispute of a settled deposit followed by its resolution is accepted both
/// times and leaves the balances, the history and the lock as they were
/// before the dispute.
pub proof fn lemma_dispute_then_resolve(account: AccountView, tx: u32)
    requires
        account.wf(),
        !account.locked,
        account.disputable(tx),
        account.pending.len() >= 2,
        account.pending[0].transaction_type is Dispute,
        account.pending[0].tx == tx,
        account.pending[1].transaction_type is Resolve,
        account.pending[1].tx == tx,
    ensures
        account.outcome() is Ok,
        account.next().outcome() is Ok,
        account.next().available == account.available - account.settled_amount(tx),
        account.next().held == account.held + account.settled_amount(tx),
        account.next().total == account.total,
        account.next().next() == (AccountView { pending: account.pending.skip(2), ..account }),
{
    let after = account.next().next();
    assert(after.settled =~= account.settled);
    assert(after.pending =~= account.pending.skip(2));
}

/// A dispute of a settled deposit followed by its chargeback is accepted both
/// times. Together they take the deposit's amount out of what is available
/// and out of the total, leave what is held as it was, and lock the account.
pub proof fn lemma_dispute_then_chargeback(account: AccountView, tx: u32)
    requires
        account.wf(),
        !account.locked,
        account.disputable(tx),
        account.pending.len() >= 2,
        account.pending[0].transaction_type is Dispute,
        account.pending[0].tx == tx,
        account.pending[1].transaction_type is Chargeback,
        account.pending[1].tx == tx,
    ensures
        account.outcome() is Ok,
        account.next().outcome() is Ok,
        account.next().next().available == account.available - account.settled_amount(tx),
        account.next().next().held == account.held,
        account.next().next().total == account.total - account.settled_amount(tx),
        account.next().next().locked,
{
}

/// The driver stops in a state in which it would stop again at once, and
/// leaves a well-formed account of the same client with balances in range.
pub proof fn lemma_drain_keeps_invariant(account: AccountView)
    requires
        account.wf(),
        account.in_range(),
    ensures
        account.drained().wf(),
        account.drained().in_range(),
        account.drained().client == account.client,
        account.drained().halted() is Some,
        account.drained().drained() == account.drained(),
    decreases account.pending.len(),
{
    if account.halted() is None {
        lemma_process_keeps_invariant(account);
        lemma_drain_keeps_invariant(account.next());
    }
}

/// The driver takes the records in the order of the queue and each of them
/// once: every record that was waiting is applied, rejected or still
/// waiting, and those still waiting are the end of the queue as it was.
pub proof fn lemma_drain_accounts_for_every_record(account: AccountView)
    ensures
        account.drain_applied() + account.drain_rejected() + account.drained().pending.len()
            == account.pending.len(),
        account.drained().pending == account.pending.skip(
            (account.drain_applied() + account.drain_rejected()) as int,
        ),
    decreases account.pending.len(),
{
    if account.halted() is None {
        lemma_drain_accounts_for_every_record(account.next());
        let done = (account.next().drain_applied() + account.next().drain_rejected()) as int;
        assert(account.next().pending =~= account.pending.skip(1));
        assert(account.pending.skip(1).skip(done) =~= account.pending.skip(1 + done));
    } else {
        assert(account.pending.skip(0) =~= account.pending);
    }
}

/// A driver that stops because the queue is empty has left no record behind,
/// and one that stops for any other reason has left at least one.
pub proof fn lemma_drain_end(account: AccountView)
    requires
        account.wf(),
        account.in_range(),
    ensures
        account.drained().halted() == Some(DrainEnd::Completed) ==> account.drained().pending.len()
            == 0,
        account.drained().halted() == Some(DrainEnd::OutOfRange)
            ==> account.drained().pending.len() > 0,
        account.drained().halted() == Some(DrainEnd::Locked) <==> account.drained().locked,
{
    lemma_drain_keeps_invariant(account);
}

/// One thing that a caller can do to a ledger. Each is addressed to one
/// client.
pub enum BankOp {
    /// Route a record to the account of its client.
    Route(Transaction),
    /// Run the driver on the account of a client.
    Drain(u16),
}

impl BankOp {
    /// The client that the operation is addressed to.
    pub open spec fn client(self) -> u16 {
        match self {
            BankOp::Route(record) => record.client,
            BankOp::Drain(client) => client,
        }
    }
}

impl BankView {
    /// The account of `client`, if that client has appeared.
    pub open spec fn account(self, client: u16) -> Option<AccountView> {
        if self.accounts.contains_key(client) {
            Some(self.accounts[client])
        } else {
            None
        }
    }

    /// The ledger after `op`.
    pub open spec fn step(self, op: BankOp) -> BankView {
        match op {
            BankOp::Route(record) => self.routed(record),
            BankOp::Drain(client) => self.drained(client),
        }
    }

    /// The ledger after `ops`, one after the other.
    pub open spec fn run(self, ops: Seq<BankOp>) -> BankView
        decreases ops.len(),
    {
        if ops.len() == 0 {
            self
        } else {
            self.run(ops.drop_last()).step(ops.last())
        }
    }
}

/// An operation addressed to one client leaves the account of every other
/// client as it is, and creates none for them.
pub proof fn lemma_other_clients_untouched(bank: BankView, op: BankOp, other: u16)
    requires
        op.client() != other,
    ensures
        bank.step(op).account(other) == bank.account(other),
{
}

/// What an operation does to the account of its client depends on that
/// account alone, not on the rest of the ledger.
pub proof fn lemma_own_account_decides(first: BankView, second: BankView, op: BankOp)
    requires
        first.account(op.client()) == second.account(op.client()),
    ensures
        first.step(op).account(op.client()) == second.step(op).account(op.client()),
{
}

/// Two operations addressed to different clients give the same accounts in
/// either order.
pub proof fn lemma_order_is_irrelevant(bank: BankView, first: BankOp, second: BankOp)
    requires
        first.client() != second.client(),
    ensures
        bank.step(first).step(second).accounts == bank.step(second).step(first).accounts,
{
    let one = bank.step(first).step(second).accounts;
    let other = bank.step(second).step(first).accounts;
    assert forall|client: u16| one.contains_key(client) == other.contains_key(client) && (
    one.contains_key(client) ==> one[client] == other[client]) by {
        lemma_other_clients_untouched(bank, first, second.client());
        lemma_other_clients_untouched(bank, second, first.client());
        lemma_own_account_decides(bank, bank.step(first), second);
        lemma_own_account_decides(bank, bank.step(second), first);
        if client != first.client() {
            lemma_other_clients_untouched(bank, first, client);
            lemma_other_clients_untouched(bank.step(second), first, client);
        }
        if client != second.client() {
            lemma_other_clients_untouched(bank, second, client);
            lemma_other_clients_untouched(bank.step(first), second, client);
        }
    }
    assert(one =~= other);
}

/// However the operations of different clients are interleaved, a client's
/// account ends as if only the operations addressed to that client had taken
/// place, in their order.
pub proof fn lemma_clients_are_isolated(bank: BankView, ops: Seq<BankOp>, client: u16)
    ensures
        bank.run(ops).account(client) == bank.run(
            ops.filter(|op: BankOp| op.client() == client),
        ).account(client),
    decreases ops.len(),
{
    reveal(Seq::filter);
    let own = |op: BankOp| op.client() == client;
    if ops.len() > 0 {
        let before = ops.drop_last();
        let last = ops.last();
        lemma_clients_are_isolated(bank, before, client);
        if last.client() == client {
            assert(ops.filter(own) == before.filter(own).push(last));
            assert(before.filter(own).push(last).drop_last() =~= before.filter(own));
            lemma_own_account_decides(bank.run(before), bank.run(before.filter(own)), last);
        } else {
            lemma_other_clients_untouched(bank.run(before), last, client);
        }
    }
}

/// Operations none of which is addressed to `client` leave that client's
/// account as it is.
pub proof fn lemma_foreign_operations_untouched(bank: BankView, ops: Seq<BankOp>, client: u16)
    requires
        forall|i: int| 0 <= i < ops.len() ==> (#[trigger] ops[i]).client() != client,
    ensures
        bank.run(ops).account(client) == bank.account(client),
    decreases ops.len(),
{
    if ops.len() > 0 {
        lemma_foreign_operations_untouched(bank, ops.drop_last(), client);
        lemma_other_clients_untouched(bank.run(ops.drop_last()), ops.last(), client);
    }
}

/// Routing and draining keep a well-formed ledger well-formed: there is
/// still exactly one account for each client that has appeared, and no
/// client is forgotten.
pub proof fn lemma_ledger_stays_wf(bank: BankView, op: BankOp)
    requires
        bank.wf(),
    ensures
        bank.step(op).wf(),
        forall|client: u16|
            bank.accounts.contains_key(client) ==> #[trigger] bank.step(op).accounts.contains_key(
                client,
            ),
{
    let after = bank.step(op);
    match op {
        BankOp::Drain(client) => {
            if bank.accounts.contains_key(client) {
                lemma_drain_keeps_invariant(bank.accounts[client]);
            }
        },
        BankOp::Route(record) => {
            if !bank.accounts.contains_key(record.client) {
                assert forall|client: u16|
                    after.order.contains(client) <==> after.accounts.contains_key(client) by {
                    if after.order.contains(client) {
                        let i = choose|i: int|
                            0 <= i < after.order.len() && after.order[i] == client;
                        if i < bank.order.len() {
                            assert(bank.order[i] == client);
                            assert(bank.order.contains(client));
                        }
                    }
                    if after.accounts.contains_key(client) {
                        if client == record.client {
                            assert(after.order[bank.order.len() as int] == client);
                        } else {
                            assert(bank.order.contains(client));
                            let i = choose|i: int|
                                0 <= i < bank.order.len() && bank.order[i] == client;
                            assert(after.order[i] == client);
                        }
                    }
                }
                assert forall|i: int, j: int|
                    0 <= i < after.order.len() && 0 <= j < after.order.len() && i
                        != j implies after.order[i] != after.order[j] by {
                    if i < bank.order.len() {
                        assert(bank.order.contains(after.order[i]));
                    }
                    if j < bank.order.len() {
                        assert(bank.order.contains(after.order[j]));
                    }
                }
            }
        },
    }
}

/// No sequence of operations takes a well-formed ledger out of its
/// invariant.
pub proof fn lemma_ledger_always_wf(bank: BankView, ops: Seq<BankOp>)
    requires
        bank.wf(),
    ensures
        bank.run(ops).wf(),
    decreases ops.len(),
{
    if ops.len() > 0 {
        lemma_ledger_always_wf(bank, ops.drop_last());
        lemma_ledger_stays_wf(bank.run(ops.drop_last()), ops.last());
    }
}

} // verus!
