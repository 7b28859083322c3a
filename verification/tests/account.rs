use ledger::account::{Account, AccountSnapshot, TransactionProcessingError};
use ledger::transaction::{Transaction, TransactionType};

fn prepare_acc(initial_funds: i64) -> Account {
    let mut acc = Account::new(
        0,
        Transaction::new(TransactionType::Deposit, 0, 0, Some(initial_funds)),
    );
    acc.process_pending_transaction().unwrap();
    acc
}

fn feed(acc: &mut Account, kind: TransactionType, tx: u32, amount: Option<i64>) -> Result<(), TransactionProcessingError> {
    let client = acc.client();
    acc.add_transaction(Transaction::new(kind, client, tx, amount));
    assert!(acc.next_fits());
    let result = acc.process_pending_transaction();
    assert_eq!(acc.total(), acc.available() + acc.held());
    result
}

fn balances(acc: &Account) -> (i64, i64, i64, bool) {
    (acc.available(), acc.held(), acc.total(), acc.locked())
}

#[test]
fn deposit() {
    let mut acc = prepare_acc(5);
    assert_eq!(acc.available(), 5);
    assert_eq!(acc.total(), 5);

    acc.add_transaction(Transaction::new(TransactionType::Deposit, 0, 1, Some(-5)));
    assert!(acc.process_pending_transaction().is_err());
    assert_eq!(acc.available(), 5);
    assert_eq!(acc.total(), 5);
}

#[test]
fn withdraw() {
    let mut acc = prepare_acc(10);
    assert_eq!(acc.available(), 10);
    assert_eq!(acc.total(), 10);

    acc.add_transaction(Transaction::new(
        TransactionType::Withdrawal,
        0,
        1,
        Some(5),
    ));
    acc.process_pending_transaction().unwrap();
    assert_eq!(acc.available(), 5);
    assert_eq!(acc.total(), 5);

    acc.add_transaction(Transaction::new(
        TransactionType::Withdrawal,
        0,
        2,
        Some(6),
    ));
    assert!(acc.process_pending_transaction().is_err());
    assert_eq!(acc.available(), 5);
    assert_eq!(acc.total(), 5);

    acc.add_transaction(Transaction::new(
        TransactionType::Withdrawal,
        0,
        3,
        Some(-1),
    ));
    assert!(acc.process_pending_transaction().is_err());
    assert_eq!(acc.available(), 5);
    assert_eq!(acc.total(), 5);
}

#[test]
fn dispute() {
    let mut acc = prepare_acc(10);
    assert_eq!(acc.available(), 10);
    assert_eq!(acc.total(), 10);
    const TRANSACTION_TO_DISPUTE_ID: u32 = 5;
    const INVALID_DISPUTE_ID: u32 = 999;
    const WITHDRAW_TRANSACTION_ID: u32 = 10;

    let deposit_transaction = Transaction::new(
        TransactionType::Deposit,
        0,
        TRANSACTION_TO_DISPUTE_ID,
        Some(5),
    );
    acc.add_transaction(deposit_transaction);
    acc.process_pending_transaction().unwrap();

    let dispute_transaction =
        Transaction::new(TransactionType::Dispute, 0, TRANSACTION_TO_DISPUTE_ID, None);

    acc.add_transaction(dispute_transaction);
    acc.process_pending_transaction().unwrap();
    assert_eq!(acc.total(), 15);
    assert_eq!(acc.available(), 10);
    assert_eq!(acc.held(), 5);

    let invalid_dispute =
        Transaction::new(TransactionType::Dispute, 0, INVALID_DISPUTE_ID, None);
    acc.add_transaction(invalid_dispute);
    assert!(acc.process_pending_transaction().is_err());

    let withdraw_transaction = Transaction::new(
        TransactionType::Withdrawal,
        0,
        INVALID_DISPUTE_ID,
        Some(1),
    );
    acc.add_transaction(withdraw_transaction);
    acc.process_pending_transaction().unwrap();
    assert_eq!(acc.total(), 14);
    assert_eq!(acc.available(), 9);

    let another_invalid_dispute =
        Transaction::new(TransactionType::Dispute, 0, WITHDRAW_TRANSACTION_ID, None);
    acc.add_transaction(another_invalid_dispute);
    assert!(acc.process_pending_transaction().is_err());
}

#[test]
fn transaction_new_keeps_its_arguments() {
    let t = Transaction::new(TransactionType::Withdrawal, 7, 42, Some(13));
    assert_eq!(t.transaction_type, TransactionType::Withdrawal);
    assert_eq!(t.client, 7);
    assert_eq!(t.tx, 42);
    assert_eq!(t.amount, Some(13));
    let d = Transaction::new(TransactionType::Chargeback, 1, 2, None);
    assert_eq!(d.transaction_type, TransactionType::Chargeback);
    assert_eq!(d.amount, None);
}

#[test]
fn new_account_is_empty_but_for_its_first_record() {
    let acc = Account::new(9, Transaction::new(TransactionType::Deposit, 9, 1, Some(3)));
    assert_eq!(acc.client(), 9);
    assert_eq!(balances(&acc), (0, 0, 0, false));
    assert_eq!(acc.pending_len(), 1);
    assert_eq!(
        acc.snapshot(),
        AccountSnapshot { client: 9, available: 0, held: 0, total: 0, locked: false }
    );
}

#[test]
fn add_transaction_lengthens_the_queue_by_one() {
    let mut acc = Account::new(1, Transaction::new(TransactionType::Deposit, 1, 1, Some(3)));
    acc.add_transaction(Transaction::new(TransactionType::Resolve, 1, 77, None));
    assert_eq!(acc.pending_len(), 2);
    acc.add_transaction(Transaction::new(TransactionType::Deposit, 1, 2, None));
    assert_eq!(acc.pending_len(), 3);
    assert_eq!(balances(&acc), (0, 0, 0, false));
}

#[test]
fn records_are_processed_in_the_order_of_arrival() {
    let mut acc = Account::new(1, Transaction::new(TransactionType::Withdrawal, 1, 1, Some(4)));
    acc.add_transaction(Transaction::new(TransactionType::Deposit, 1, 2, Some(4)));
    acc.add_transaction(Transaction::new(TransactionType::Withdrawal, 1, 3, Some(4)));
    assert_eq!(
        acc.process_pending_transaction(),
        Err(TransactionProcessingError::InsufficientAmount)
    );
    assert_eq!(acc.process_pending_transaction(), Ok(()));
    assert_eq!(acc.available(), 4);
    assert_eq!(acc.process_pending_transaction(), Ok(()));
    assert_eq!(balances(&acc), (0, 0, 0, false));
    assert_eq!(acc.pending_len(), 0);
}

#[test]
fn single_deposit_becomes_available() {
    let mut acc = Account::new(1, Transaction::new(TransactionType::Deposit, 1, 1, Some(10)));
    assert_eq!(acc.process_pending_transaction(), Ok(()));
    assert_eq!(balances(&acc), (10, 0, 10, false));
}

#[test]
fn withdrawal_reduces_available_and_total() {
    let mut acc = prepare_acc(10);
    assert_eq!(feed(&mut acc, TransactionType::Withdrawal, 2, Some(3)), Ok(()));
    assert_eq!(balances(&acc), (7, 0, 7, false));
}

#[test]
fn overdraft_has_no_effect() {
    let mut acc = prepare_acc(10);
    assert_eq!(
        feed(&mut acc, TransactionType::Withdrawal, 2, Some(15)),
        Err(TransactionProcessingError::InsufficientAmount)
    );
    assert_eq!(balances(&acc), (10, 0, 10, false));
    assert_eq!(acc.pending_len(), 0);
}

#[test]
fn dispute_holds_the_deposit() {
    let mut acc = Account::new(1, Transaction::new(TransactionType::Deposit, 1, 1, Some(5)));
    acc.process_pending_transaction().unwrap();
    assert_eq!(feed(&mut acc, TransactionType::Dispute, 1, None), Ok(()));
    assert_eq!(balances(&acc), (0, 5, 5, false));
}

#[test]
fn chargeback_locks_the_account() {
    let mut acc = Account::new(1, Transaction::new(TransactionType::Deposit, 1, 1, Some(5)));
    acc.process_pending_transaction().unwrap();
    assert_eq!(feed(&mut acc, TransactionType::Dispute, 1, None), Ok(()));
    assert_eq!(feed(&mut acc, TransactionType::Chargeback, 1, None), Ok(()));
    assert_eq!(balances(&acc), (0, 0, 0, true));

    acc.add_transaction(Transaction::new(TransactionType::Deposit, 1, 2, Some(1)));
    assert_eq!(
        acc.process_pending_transaction(),
        Err(TransactionProcessingError::AccountLocked(1))
    );
    acc.add_transaction(Transaction::new(TransactionType::Withdrawal, 1, 3, Some(1)));
    acc.add_transaction(Transaction::new(TransactionType::Dispute, 1, 1, None));
    assert_eq!(
        acc.process_pending_transaction(),
        Err(TransactionProcessingError::AccountLocked(3))
    );
    assert_eq!(acc.pending_len(), 3);
    assert_eq!(balances(&acc), (0, 0, 0, true));
}

#[test]
fn dispute_then_resolve_restores_the_balances() {
    let mut acc = Account::new(1, Transaction::new(TransactionType::Deposit, 1, 1, Some(5)));
    acc.process_pending_transaction().unwrap();
    let before = balances(&acc);
    assert_eq!(before, (5, 0, 5, false));
    assert_eq!(feed(&mut acc, TransactionType::Dispute, 1, None), Ok(()));
    assert_eq!(balances(&acc), (0, 5, 5, false));
    assert_eq!(feed(&mut acc, TransactionType::Resolve, 1, None), Ok(()));
    assert_eq!(balances(&acc), before);
    // The deposit is settled again, so it can be disputed once more.
    assert_eq!(feed(&mut acc, TransactionType::Dispute, 1, None), Ok(()));
    assert_eq!(balances(&acc), (0, 5, 5, false));
}

#[test]
fn dispute_then_chargeback_removes_the_deposit() {
    let mut acc = prepare_acc(20);
    assert_eq!(feed(&mut acc, TransactionType::Deposit, 1, Some(5)), Ok(()));
    assert_eq!(balances(&acc), (25, 0, 25, false));
    assert_eq!(feed(&mut acc, TransactionType::Dispute, 1, None), Ok(()));
    assert_eq!(balances(&acc), (20, 5, 25, false));
    assert_eq!(feed(&mut acc, TransactionType::Chargeback, 1, None), Ok(()));
    assert_eq!(balances(&acc), (20, 0, 20, true));
}

#[test]
fn empty_queue_is_reported_and_changes_nothing() {
    let mut acc = prepare_acc(8);
    for _ in 0..3 {
        assert_eq!(
            acc.process_pending_transaction(),
            Err(TransactionProcessingError::NoTransactionToProcess)
        );
        assert_eq!(balances(&acc), (8, 0, 8, false));
        assert_eq!(acc.pending_len(), 0);
    }
}

#[test]
fn locked_account_with_empty_queue_reports_the_lock() {
    let mut acc = prepare_acc(5);
    assert_eq!(feed(&mut acc, TransactionType::Dispute, 0, None), Ok(()));
    assert_eq!(feed(&mut acc, TransactionType::Chargeback, 0, None), Ok(()));
    assert_eq!(acc.pending_len(), 0);
    assert_eq!(
        acc.process_pending_transaction(),
        Err(TransactionProcessingError::AccountLocked(0))
    );
    assert_eq!(balances(&acc), (0, 0, 0, true));
}

#[test]
fn amounts_that_are_missing_zero_or_negative_are_invalid() {
    let mut acc = prepare_acc(10);
    let kinds = [TransactionType::Deposit, TransactionType::Withdrawal];
    let amounts = [None, Some(0), Some(-1), Some(i64::MIN)];
    let mut tx = 1;
    for kind in kinds {
        for amount in amounts {
            assert_eq!(
                feed(&mut acc, kind, tx, amount),
                Err(TransactionProcessingError::InvalidAmount)
            );
            assert_eq!(balances(&acc), (10, 0, 10, false));
            assert_eq!(acc.pending_len(), 0);
            // A rejected record is not kept in the history.
            assert_eq!(
                feed(&mut acc, TransactionType::Dispute, tx, None),
                Err(TransactionProcessingError::InvalidDisputeTarget)
            );
            tx += 1;
        }
    }
}

#[test]
fn withdrawal_of_all_that_is_available_is_accepted() {
    let mut acc = prepare_acc(10);
    assert_eq!(feed(&mut acc, TransactionType::Withdrawal, 1, Some(10)), Ok(()));
    assert_eq!(balances(&acc), (0, 0, 0, false));
    assert_eq!(
        feed(&mut acc, TransactionType::Withdrawal, 2, Some(1)),
        Err(TransactionProcessingError::InsufficientAmount)
    );
    assert_eq!(balances(&acc), (0, 0, 0, false));
}

#[test]
fn held_funds_cannot_be_withdrawn() {
    let mut acc = prepare_acc(10);
    assert_eq!(feed(&mut acc, TransactionType::Dispute, 0, None), Ok(()));
    assert_eq!(
        feed(&mut acc, TransactionType::Withdrawal, 1, Some(1)),
        Err(TransactionProcessingError::InsufficientAmount)
    );
    assert_eq!(balances(&acc), (0, 10, 10, false));
}

#[test]
fn dispute_needs_a_settled_deposit() {
    let mut acc = prepare_acc(10);
    // unknown identifier
    assert_eq!(
        feed(&mut acc, TransactionType::Dispute, 999, None),
        Err(TransactionProcessingError::InvalidDisputeTarget)
    );
    // a withdrawal
    assert_eq!(feed(&mut acc, TransactionType::Withdrawal, 1, Some(4)), Ok(()));
    assert_eq!(
        feed(&mut acc, TransactionType::Dispute, 1, None),
        Err(TransactionProcessingError::InvalidDisputeTarget)
    );
    assert_eq!(balances(&acc), (6, 0, 6, false));
    // a deposit that is already under dispute
    assert_eq!(feed(&mut acc, TransactionType::Dispute, 0, None), Ok(()));
    assert_eq!(balances(&acc), (-4, 10, 6, false));
    assert_eq!(
        feed(&mut acc, TransactionType::Dispute, 0, None),
        Err(TransactionProcessingError::InvalidDisputeTarget)
    );
    assert_eq!(balances(&acc), (-4, 10, 6, false));
}

#[test]
fn resolve_and_chargeback_need_a_dispute() {
    let mut acc = prepare_acc(10);
    for kind in [TransactionType::Resolve, TransactionType::Chargeback] {
        // unknown identifier
        assert_eq!(
            feed(&mut acc, kind, 999, None),
            Err(TransactionProcessingError::TransactionNotUnderDispute)
        );
        // a settled deposit that nobody disputes
        assert_eq!(
            feed(&mut acc, kind, 0, None),
            Err(TransactionProcessingError::TransactionNotUnderDispute)
        );
        assert_eq!(balances(&acc), (10, 0, 10, false));
    }
    // a deposit whose dispute was resolved
    assert_eq!(feed(&mut acc, TransactionType::Dispute, 0, None), Ok(()));
    assert_eq!(feed(&mut acc, TransactionType::Resolve, 0, None), Ok(()));
    assert_eq!(
        feed(&mut acc, TransactionType::Resolve, 0, None),
        Err(TransactionProcessingError::TransactionNotUnderDispute)
    );
    assert_eq!(
        feed(&mut acc, TransactionType::Chargeback, 0, None),
        Err(TransactionProcessingError::TransactionNotUnderDispute)
    );
    assert_eq!(balances(&acc), (10, 0, 10, false));
}

#[test]
fn dispute_of_a_spent_deposit_makes_available_negative() {
    let mut acc = prepare_acc(10);
    assert_eq!(feed(&mut acc, TransactionType::Withdrawal, 1, Some(9)), Ok(()));
    assert_eq!(feed(&mut acc, TransactionType::Dispute, 0, None), Ok(()));
    assert_eq!(balances(&acc), (-9, 10, 1, false));
    assert_eq!(feed(&mut acc, TransactionType::Chargeback, 0, None), Ok(()));
    assert_eq!(balances(&acc), (-9, 0, -9, true));
}

#[test]
fn total_is_the_sum_after_every_call() {
    let mut acc = Account::new(3, Transaction::new(TransactionType::Deposit, 3, 1, Some(100)));
    let script = [
        (TransactionType::Deposit, 2, Some(50)),
        (TransactionType::Withdrawal, 3, Some(30)),
        (TransactionType::Withdrawal, 4, Some(1000)),
        (TransactionType::Dispute, 2, None),
        (TransactionType::Deposit, 5, Some(-3)),
        (TransactionType::Resolve, 2, None),
        (TransactionType::Dispute, 1, None),
        (TransactionType::Resolve, 7, None),
        (TransactionType::Chargeback, 1, None),
        (TransactionType::Deposit, 6, Some(9)),
    ];
    for (kind, tx, amount) in script {
        acc.add_transaction(Transaction::new(kind, 3, tx, amount));
    }
    let expected = [
        (100, 0, 100, false),
        (150, 0, 150, false),
        (120, 0, 120, false),
        (120, 0, 120, false),
        (70, 50, 120, false),
        (70, 50, 120, false),
        (120, 0, 120, false),
        (20, 100, 120, false),
        (20, 100, 120, false),
        (20, 0, 20, true),
        (20, 0, 20, true),
    ];
    for step in expected {
        assert!(acc.next_fits());
        let _ = acc.process_pending_transaction();
        assert_eq!(balances(&acc), step);
        assert_eq!(acc.total(), acc.available() + acc.held());
    }
    assert_eq!(acc.pending_len(), 1);
}

#[test]
fn next_fits_tells_when_a_balance_would_leave_the_range() {
    let mut acc = prepare_acc(i64::MAX);
    assert_eq!(balances(&acc), (i64::MAX, 0, i64::MAX, false));
    // nothing waits: nothing changes
    assert!(acc.next_fits());
    acc.add_transaction(Transaction::new(TransactionType::Deposit, 0, 1, Some(1)));
    assert!(!acc.next_fits());

    // A rejected record changes no balance, so it always fits.
    let mut other = prepare_acc(i64::MAX);
    other.add_transaction(Transaction::new(TransactionType::Deposit, 0, 1, Some(0)));
    assert!(other.next_fits());
    assert_eq!(
        other.process_pending_transaction(),
        Err(TransactionProcessingError::InvalidAmount)
    );
    other.add_transaction(Transaction::new(TransactionType::Withdrawal, 0, 2, Some(i64::MAX)));
    assert!(other.next_fits());
    assert_eq!(other.process_pending_transaction(), Ok(()));
    assert_eq!(balances(&other), (0, 0, 0, false));
}

#[test]
fn next_fits_watches_the_dispute_family() {
    // available would fall below the least value
    let mut acc = prepare_acc(i64::MAX);
    assert_eq!(feed(&mut acc, TransactionType::Withdrawal, 1, Some(i64::MAX)), Ok(()));
    assert_eq!(feed(&mut acc, TransactionType::Dispute, 0, None), Ok(()));
    assert_eq!(balances(&acc), (-i64::MAX, i64::MAX, 0, false));
    assert_eq!(feed(&mut acc, TransactionType::Deposit, 2, Some(2)), Ok(()));
    assert_eq!(feed(&mut acc, TransactionType::Withdrawal, 3, Some(1)), Err(TransactionProcessingError::InsufficientAmount));
    assert_eq!(balances(&acc), (2 - i64::MAX, i64::MAX, 2, false));
    acc.add_transaction(Transaction::new(TransactionType::Dispute, 0, 2, None));
    // held would exceed the greatest value
    assert!(!acc.next_fits());

    // a resolve that would push available beyond the greatest value
    let mut other = prepare_acc(i64::MAX);
    assert_eq!(feed(&mut other, TransactionType::Dispute, 0, None), Ok(()));
    assert_eq!(balances(&other), (0, i64::MAX, i64::MAX, false));
    other.add_transaction(Transaction::new(TransactionType::Deposit, 0, 1, Some(1)));
    // the total would exceed the greatest value
    assert!(!other.next_fits());

    // a chargeback only lowers held and the total
    let mut third = prepare_acc(i64::MAX);
    assert_eq!(feed(&mut third, TransactionType::Dispute, 0, None), Ok(()));
    assert_eq!(feed(&mut third, TransactionType::Chargeback, 0, None), Ok(()));
    assert_eq!(balances(&third), (0, 0, 0, true));
}
