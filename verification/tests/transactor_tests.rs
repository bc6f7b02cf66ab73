use std::collections::HashMap;

use jouet_paiement::account::{
    Account, AccountSnapshot, AccountStatus, Deposit, DepositStatus, Withdrawal, WithdrawalStatus,
};
use jouet_paiement::account_transactor::{
    AccountTransactor, AccountTransactorError, SimpleAccountTransactor, SuccessStatus,
};
use jouet_paiement::model::{Amount, Amount4DecimalBased, Transaction, TransactionId, TransactionKind};
use jouet_paiement::transactors::{
    BackchargerError, CreditBackcharger, CreditDisputer, CreditResolver, DepositorError,
    DisputerError, ResolverError, SimpleDepositor, SimpleWithdrawer, WithdrawerError,
};

const CLIENT_ID: u16 = 123;

fn amount(v: i64) -> Amount {
    Amount4DecimalBased(v)
}

fn account(
    status: AccountStatus,
    available: i64,
    held: i64,
    deposits: Vec<(TransactionId, Deposit)>,
    withdrawals: Vec<(TransactionId, Withdrawal)>,
) -> Account {
    Account::new(
        1234,
        status,
        AccountSnapshot::new(available, held),
        deposits.into_iter().collect::<HashMap<_, _>>(),
        withdrawals.into_iter().collect::<HashMap<_, _>>(),
    )
}

fn active(available: i64, held: i64, deposits: Vec<(TransactionId, Deposit)>) -> Account {
    account(AccountStatus::Active, available, held, deposits, vec![])
}

fn some_account() -> Account {
    account(AccountStatus::Active, 0, 0, vec![], vec![])
}

fn deposit_entry(v: i64, status: DepositStatus) -> Deposit {
    Deposit { amount: amount(v), status }
}

fn accepted_dep(v: i64) -> Deposit {
    deposit_entry(v, DepositStatus::Accepted)
}

fn held_dep(v: i64) -> Deposit {
    deposit_entry(v, DepositStatus::Held)
}

fn resolved_dep(v: i64) -> Deposit {
    deposit_entry(v, DepositStatus::Resolved)
}

fn chrgd_bck_dep(v: i64) -> Deposit {
    deposit_entry(v, DepositStatus::ChargedBack)
}

fn accepted_wdr(v: i64) -> Withdrawal {
    Withdrawal { amount: amount(v), status: WithdrawalStatus::Accepted }
}

fn deposit(transaction_id: TransactionId, v: i64) -> Transaction {
    Transaction {
        client_id: CLIENT_ID,
        transaction_id,
        kind: TransactionKind::Deposit { amount: amount(v) },
    }
}

fn withdrawal(transaction_id: TransactionId, v: i64) -> Transaction {
    Transaction {
        client_id: CLIENT_ID,
        transaction_id,
        kind: TransactionKind::Withdrawal { amount: amount(v) },
    }
}

fn dispute(transaction_id: TransactionId) -> Transaction {
    Transaction { client_id: CLIENT_ID, transaction_id, kind: TransactionKind::Dispute }
}

fn resolve(transaction_id: TransactionId) -> Transaction {
    Transaction { client_id: CLIENT_ID, transaction_id, kind: TransactionKind::Resolve }
}

fn chargeback(transaction_id: TransactionId) -> Transaction {
    Transaction { client_id: CLIENT_ID, transaction_id, kind: TransactionKind::ChargeBack }
}

// The dispatch tests: transacting an event leaves the account exactly as the
// matching per-event transactor does.

#[test]
fn account_transactor_calls_depositor_for_deposit() {
    let mut account = some_account();
    let transaction_id: TransactionId = 0;
    let processor = SimpleAccountTransactor::new();
    processor.transact(&mut account, deposit(0, 0)).unwrap();

    let mut expected = some_account();
    SimpleDepositor.deposit(&mut expected, transaction_id, amount(0)).unwrap();
    assert_eq!(account, expected);
}

#[test]
fn account_transactor_calls_withdrawer_for_withdrawal() {
    let mut account = some_account();
    let transaction_id: TransactionId = 0;
    let processor = SimpleAccountTransactor::new();
    processor.transact(&mut account, withdrawal(0, 0)).unwrap();

    let mut expected = some_account();
    SimpleWithdrawer.withdraw(&mut expected, transaction_id, amount(0)).unwrap();
    assert_eq!(account, expected);
}

#[test]
fn calls_disputer_for_dispute() {
    let mut account = some_account();
    let transaction_id: TransactionId = 0;
    let processor = SimpleAccountTransactor::new();
    let result = processor.transact(&mut account, dispute(0));

    let mut expected = some_account();
    let disputer_result = CreditDisputer.dispute(&mut expected, transaction_id);
    assert_eq!(disputer_result, Err(DisputerError::NoTransactionFound));
    assert_eq!(result, Err(AccountTransactorError::NoTransactionFound));
    assert_eq!(account, expected);
}

#[test]
fn calls_resolver_for_resolve() {
    let mut account = some_account();
    let transaction_id: TransactionId = 0;
    let processor = SimpleAccountTransactor::new();
    let result = processor.transact(&mut account, resolve(0));

    let mut expected = some_account();
    let resolver_result = CreditResolver.resolve(&mut expected, transaction_id);
    assert_eq!(resolver_result, Err(ResolverError::NoTransactionFound));
    assert_eq!(result, Err(AccountTransactorError::NoTransactionFound));
    assert_eq!(account, expected);
}

#[test]
fn calls_backcharger_for_chargeback() {
    let mut account = some_account();
    let transaction_id: TransactionId = 0;
    let processor = SimpleAccountTransactor::new();
    let result = processor.transact(&mut account, chargeback(0));

    let mut expected = some_account();
    let backcharger_result = CreditBackcharger.chargeback(&mut expected, transaction_id);
    assert_eq!(backcharger_result, Err(BackchargerError::NoTransactionFound));
    assert_eq!(result, Err(AccountTransactorError::NoTransactionFound));
    assert_eq!(account, expected);
}

// The depositor.

#[test]
fn depositor_active_account_cases() {
    let cases: Vec<(Account, TransactionId, i64, Result<SuccessStatus, DepositorError>, Account)> = vec![
        (active(0, 0, vec![]), 0, 3, Ok(SuccessStatus::Transacted), active(3, 0, vec![(0, accepted_dep(3))])),
        (
            active(3, 0, vec![(0, accepted_dep(3))]),
            0,
            3,
            Ok(SuccessStatus::Duplicate),
            active(3, 0, vec![(0, accepted_dep(3))]),
        ),
        (
            active(3, 0, vec![(0, held_dep(3))]),
            0,
            3,
            Ok(SuccessStatus::Duplicate),
            active(3, 0, vec![(0, held_dep(3))]),
        ),
        (
            active(3, 0, vec![(0, resolved_dep(3))]),
            0,
            3,
            Ok(SuccessStatus::Duplicate),
            active(3, 0, vec![(0, resolved_dep(3))]),
        ),
        (
            active(3, 0, vec![(0, chrgd_bck_dep(3))]),
            0,
            3,
            Ok(SuccessStatus::Duplicate),
            active(3, 0, vec![(0, chrgd_bck_dep(3))]),
        ),
        (
            active(3, 0, vec![(0, accepted_dep(3))]),
            2,
            5,
            Ok(SuccessStatus::Transacted),
            active(8, 0, vec![(0, accepted_dep(3)), (2, accepted_dep(5))]),
        ),
    ];
    for (mut original, transaction_id, v, expected_status, expected) in cases {
        let status = SimpleDepositor.deposit(&mut original, transaction_id, amount(v));
        assert_eq!(status, expected_status);
        assert_eq!(original, expected);
    }
}

#[test]
fn depositor_deposit_to_locked_account_returns_error() {
    let mut account = account(AccountStatus::Locked, 0, 0, vec![], vec![]);
    assert_eq!(
        SimpleDepositor.deposit(&mut account, 1, amount(10)),
        Err(DepositorError::AccountLocked)
    );
}

#[test]
fn depositor_rejects_a_conflicting_replay() {
    let mut account = active(3, 0, vec![(0, accepted_dep(3))]);
    assert_eq!(
        SimpleDepositor.deposit(&mut account, 0, amount(4)),
        Err(DepositorError::ConflictingWithPreviousTransaction(0))
    );
    assert_eq!(account, active(3, 0, vec![(0, accepted_dep(3))]));
}

#[test]
fn depositor_rejects_an_amount_that_overflows() {
    let mut account = active(i64::MAX, 0, vec![]);
    assert_eq!(
        SimpleDepositor.deposit(&mut account, 0, amount(1)),
        Err(DepositorError::AmountOverflow)
    );
    assert_eq!(account, active(i64::MAX, 0, vec![]));
}

// The withdrawer.

#[test]
fn withdrawer_active_account_cases() {
    // Fresh withdrawal, duplicate replay, and an insufficient balance.
    let mut account = active(10, 0, vec![]);
    assert_eq!(
        SimpleWithdrawer.withdraw(&mut account, 1, amount(4)),
        Ok(SuccessStatus::Transacted)
    );
    assert_eq!(
        account,
        self::account(AccountStatus::Active, 6, 0, vec![], vec![(1, accepted_wdr(4))])
    );
    assert_eq!(
        SimpleWithdrawer.withdraw(&mut account, 1, amount(4)),
        Ok(SuccessStatus::Duplicate)
    );
    assert_eq!(
        SimpleWithdrawer.withdraw(&mut account, 2, amount(7)),
        Err(WithdrawerError::InsufficientFund)
    );
    assert_eq!(
        account,
        self::account(AccountStatus::Active, 6, 0, vec![], vec![(1, accepted_wdr(4))])
    );
}

#[test]
fn withdrawal_from_locked_account_returns_error() {
    let mut account = account(AccountStatus::Locked, 100, 0, vec![], vec![]);
    assert_eq!(
        SimpleWithdrawer.withdraw(&mut account, 1, amount(10)),
        Err(WithdrawerError::AccountLocked)
    );
}

// The disputer.

#[test]
fn disputer_active_account_cases() {
    let cases: Vec<(Account, TransactionId, Result<SuccessStatus, DisputerError>, Account)> = vec![
        (
            active(7, 0, vec![(0, accepted_dep(3))]),
            0,
            Ok(SuccessStatus::Transacted),
            active(4, 3, vec![(0, held_dep(3))]),
        ),
        (
            active(7, 0, vec![(0, held_dep(3))]),
            0,
            Ok(SuccessStatus::Duplicate),
            active(7, 0, vec![(0, held_dep(3))]),
        ),
        (
            active(7, 0, vec![(0, resolved_dep(3))]),
            0,
            Ok(SuccessStatus::Duplicate),
            active(7, 0, vec![(0, resolved_dep(3))]),
        ),
        (
            active(7, 0, vec![(0, chrgd_bck_dep(3))]),
            0,
            Ok(SuccessStatus::Duplicate),
            active(7, 0, vec![(0, chrgd_bck_dep(3))]),
        ),
        (
            active(3, 0, vec![(0, accepted_dep(7))]),
            0,
            Ok(SuccessStatus::Transacted),
            active(-4, 7, vec![(0, held_dep(7))]),
        ),
        (
            active(3, 0, vec![(0, accepted_dep(7))]),
            1,
            Err(DisputerError::NoTransactionFound),
            active(3, 0, vec![(0, accepted_dep(7))]),
        ),
    ];
    for (mut original, transaction_id, expected_status, expected) in cases {
        let status = CreditDisputer.dispute(&mut original, transaction_id);
        assert_eq!(status, expected_status);
        assert_eq!(original, expected);
    }
}

#[test]
fn disputing_a_locked_account_returns_error() {
    let mut account = account(AccountStatus::Locked, 0, 0, vec![], vec![]);
    assert_eq!(CreditDisputer.dispute(&mut account, 0), Err(DisputerError::AccountLocked));
}

#[test]
fn credit_debit_disputer_returns_bad_transaction_when_no_matching_transaction() {
    let mut account = active(7, 0, vec![(0, accepted_dep(3))]);
    assert_eq!(CreditDisputer.dispute(&mut account, 5), Err(DisputerError::NoTransactionFound));
    assert_eq!(account, active(7, 0, vec![(0, accepted_dep(3))]));
}

// The resolver.

#[test]
fn resolver_active_account_cases() {
    let cases: Vec<(Account, TransactionId, Result<SuccessStatus, ResolverError>, Account)> = vec![
        (
            active(7, 5, vec![(0, held_dep(3))]),
            0,
            Ok(SuccessStatus::Transacted),
            active(10, 2, vec![(0, resolved_dep(3))]),
        ),
        (
            active(7, 0, vec![(0, resolved_dep(3))]),
            0,
            Ok(SuccessStatus::Duplicate),
            active(7, 0, vec![(0, resolved_dep(3))]),
        ),
        (
            active(0, 0, vec![(0, accepted_dep(3))]),
            0,
            Err(ResolverError::NonDisputedTransaction),
            active(0, 0, vec![(0, accepted_dep(3))]),
        ),
        (
            active(0, 0, vec![(0, chrgd_bck_dep(3))]),
            0,
            Err(ResolverError::NonDisputedTransaction),
            active(0, 0, vec![(0, chrgd_bck_dep(3))]),
        ),
    ];
    for (mut original, transaction_id, expected_status, expected) in cases {
        let status = CreditResolver.resolve(&mut original, transaction_id);
        assert_eq!(status, expected_status);
        assert_eq!(original, expected);
    }
}

#[test]
fn credit_debit_resolver_returns_bad_transaction_when_no_matching_transaction() {
    let mut account = active(7, 0, vec![(0, held_dep(3))]);
    assert_eq!(CreditResolver.resolve(&mut account, 5), Err(ResolverError::NoTransactionFound));
    assert_eq!(account, active(7, 0, vec![(0, held_dep(3))]));
}

#[test]
fn resolving_a_locked_account_returns_error() {
    let mut account = account(AccountStatus::Locked, 7, 3, vec![(0, held_dep(3))], vec![]);
    assert_eq!(CreditResolver.resolve(&mut account, 0), Err(ResolverError::AccountLocked));
    assert_eq!(account, self::account(AccountStatus::Locked, 7, 3, vec![(0, held_dep(3))], vec![]));
}

// The backcharger.

#[test]
fn backcharger_active_account_cases() {
    let cases: Vec<(Account, TransactionId, Result<SuccessStatus, BackchargerError>, Account)> = vec![
        (
            active(7, 5, vec![(0, held_dep(3))]),
            0,
            Ok(SuccessStatus::Transacted),
            account(AccountStatus::Locked, 7, 2, vec![(0, chrgd_bck_dep(3))], vec![]),
        ),
        (
            active(0, 0, vec![(0, accepted_dep(3))]),
            0,
            Err(BackchargerError::NonDisputedTransaction),
            active(0, 0, vec![(0, accepted_dep(3))]),
        ),
        (
            active(0, 0, vec![(0, resolved_dep(3))]),
            0,
            Err(BackchargerError::NonDisputedTransaction),
            active(0, 0, vec![(0, resolved_dep(3))]),
        ),
    ];
    for (mut original, transaction_id, expected_status, expected) in cases {
        let status = CreditBackcharger.chargeback(&mut original, transaction_id);
        assert_eq!(status, expected_status);
        assert_eq!(original, expected);
    }
}

#[test]
fn returns_error_when_no_matching_transaction() {
    let mut account = active(7, 0, vec![(0, held_dep(3))]);
    assert_eq!(
        CreditBackcharger.chargeback(&mut account, 5),
        Err(BackchargerError::NoTransactionFound)
    );
    assert_eq!(account, active(7, 0, vec![(0, held_dep(3))]));
}

#[test]
fn chargeback_on_a_charged_back_deposit_is_a_duplicate() {
    let mut account = account(AccountStatus::Locked, 7, 0, vec![(0, chrgd_bck_dep(3))], vec![]);
    assert_eq!(CreditBackcharger.chargeback(&mut account, 0), Ok(SuccessStatus::Duplicate));
    assert_eq!(
        account,
        self::account(AccountStatus::Locked, 7, 0, vec![(0, chrgd_bck_dep(3))], vec![])
    );
}

// Scenarios for the account laws, on concrete values.

#[test]
fn total_funds_track_the_ledgers() {
    // Every deposit not charged back counts for its amount, every
    // withdrawal against; held deposits leave the total unchanged.
    let processor = SimpleAccountTransactor::new();
    let mut account = Account::new(
        1234,
        AccountStatus::Active,
        AccountSnapshot::empty(),
        HashMap::new(),
        HashMap::new(),
    );
    processor.transact(&mut account, deposit(1, 100)).unwrap();
    processor.transact(&mut account, deposit(2, 50)).unwrap();
    processor.transact(&mut account, withdrawal(3, 30)).unwrap();
    processor.transact(&mut account, dispute(1)).unwrap();
    let expected_total = 100 + 50 - 30;
    let snapshot_total = 20 + 100;  // available 120 - 100 held by the dispute
    assert_eq!(
        account,
        self::account(
            AccountStatus::Active,
            20,
            100,
            vec![(1, held_dep(100)), (2, accepted_dep(50))],
            vec![(3, accepted_wdr(30))],
        )
    );
    assert_eq!(snapshot_total, expected_total);
}

#[test]
fn replaying_an_event_leaves_the_account_as_one_application() {
    let processor = SimpleAccountTransactor::new();
    let events = vec![deposit(1, 100), withdrawal(2, 30), dispute(1), resolve(1), chargeback(1)];
    for event in events {
        let mut once = active(100, 0, vec![(1, held_dep(40))]);
        let mut twice = once.clone();
        let _ = processor.transact(&mut once, event.clone());
        let _ = processor.transact(&mut twice, event.clone());
        let _ = processor.transact(&mut twice, event);
        assert_eq!(once, twice);
    }
}

#[test]
fn dispute_then_resolve_restores_the_snapshot() {
    let processor = SimpleAccountTransactor::new();
    let mut account = active(10, 0, vec![(1, accepted_dep(10))]);
    processor.transact(&mut account, dispute(1)).unwrap();
    assert_eq!(account, active(0, 10, vec![(1, held_dep(10))]));
    processor.transact(&mut account, resolve(1)).unwrap();
    assert_eq!(account, active(10, 0, vec![(1, resolved_dep(10))]));
    // A subsequent dispute of the resolved deposit is a no-op.
    processor.transact(&mut account, dispute(1)).unwrap();
    assert_eq!(account, active(10, 0, vec![(1, resolved_dep(10))]));
}

#[test]
fn chargeback_from_held_locks_and_debits_held() {
    let mut account = active(5, 10, vec![(1, held_dep(10))]);
    assert_eq!(CreditBackcharger.chargeback(&mut account, 1), Ok(SuccessStatus::Transacted));
    assert_eq!(
        account,
        self::account(AccountStatus::Locked, 5, 0, vec![(1, chrgd_bck_dep(10))], vec![])
    );
}

#[test]
fn no_transactor_mutates_a_locked_account() {
    let processor = SimpleAccountTransactor::new();
    let locked = account(
        AccountStatus::Locked,
        7,
        3,
        vec![(1, accepted_dep(4)), (2, held_dep(3))],
        vec![(3, accepted_wdr(1))],
    );
    let events = vec![
        deposit(9, 5),
        withdrawal(8, 1),
        dispute(1),
        resolve(2),
        chargeback(2),
        dispute(42),
        resolve(42),
        chargeback(42),
    ];
    for event in events {
        let mut account = locked.clone();
        let result = processor.transact(&mut account, event);
        assert!(result.is_err());
        assert_eq!(account, locked);
    }
}

// Error mapping at the dispatch level: each refusal keeps its own name.

#[test]
fn transact_names_each_refusal() {
    let processor = SimpleAccountTransactor::new();
    let locked = |deposits: Vec<(TransactionId, Deposit)>| {
        account(AccountStatus::Locked, 100, 50, deposits, vec![])
    };

    let mut a = locked(vec![]);
    assert_eq!(
        processor.transact(&mut a, deposit(1, 5)),
        Err(AccountTransactorError::CannotDepositToLockedAccount)
    );
    let mut a = locked(vec![]);
    assert_eq!(
        processor.transact(&mut a, withdrawal(1, 5)),
        Err(AccountTransactorError::CannotWithdrawFromLockedAccount)
    );
    let mut a = locked(vec![(1, accepted_dep(5))]);
    assert_eq!(
        processor.transact(&mut a, dispute(1)),
        Err(AccountTransactorError::CannotDisputeAgainstLockedAccount)
    );
    let mut a = locked(vec![(1, held_dep(5))]);
    assert_eq!(
        processor.transact(&mut a, resolve(1)),
        Err(AccountTransactorError::CannotResolveLockedAccount)
    );
    let mut a = locked(vec![(1, held_dep(5))]);
    assert_eq!(
        processor.transact(&mut a, chargeback(1)),
        Err(AccountTransactorError::CannotChargebackLockedAccount)
    );
    let mut a = active(1, 0, vec![]);
    assert_eq!(
        processor.transact(&mut a, withdrawal(1, 5)),
        Err(AccountTransactorError::InsufficientFundForWithdrawal)
    );
    let mut a = active(5, 0, vec![(1, accepted_dep(5))]);
    assert_eq!(
        processor.transact(&mut a, deposit(1, 7)),
        Err(AccountTransactorError::ConflictingWithPreviousTransaction(1))
    );
    let mut a = active(5, 0, vec![(1, accepted_dep(5))]);
    assert_eq!(
        processor.transact(&mut a, chargeback(1)),
        Err(AccountTransactorError::CannotChargebackNonDisputedTransaction(1))
    );
}

#[test]
fn an_overflowing_event_is_an_incompatible_transaction() {
    let processor = SimpleAccountTransactor::new();
    let mut a = active(i64::MAX, 0, vec![]);
    assert_eq!(
        processor.transact(&mut a, deposit(1, 1)),
        Err(AccountTransactorError::IncompatibleTransaction(1))
    );
    assert_eq!(a, active(i64::MAX, 0, vec![]));

    // A dispute whose move would underflow the available funds is refused
    // the same way and leaves the account unchanged.
    let mut a = active(i64::MIN, 0, vec![(1, accepted_dep(1))]);
    assert_eq!(
        processor.transact(&mut a, dispute(1)),
        Err(AccountTransactorError::IncompatibleTransaction(1))
    );
    assert_eq!(a, active(i64::MIN, 0, vec![(1, accepted_dep(1))]));
}

#[test]
fn a_duplicate_deposit_on_a_locked_account_stays_a_duplicate() {
    // The idempotent classification masks the lock check: replaying a
    // deposit the ledger already holds reports a duplicate, not a locked
    // account, and changes nothing.
    let mut account = account(AccountStatus::Locked, 3, 0, vec![(0, accepted_dep(3))], vec![]);
    assert_eq!(
        SimpleDepositor.deposit(&mut account, 0, amount(3)),
        Ok(SuccessStatus::Duplicate)
    );
    assert_eq!(
        account,
        self::account(AccountStatus::Locked, 3, 0, vec![(0, accepted_dep(3))], vec![])
    );
}

#[test]
fn a_conflicting_withdrawal_replay_is_refused() {
    let mut account = account(AccountStatus::Active, 6, 0, vec![], vec![(1, accepted_wdr(4))]);
    assert_eq!(
        SimpleWithdrawer.withdraw(&mut account, 1, amount(5)),
        Err(WithdrawerError::ConflictingWithPreviousTransaction(1))
    );
    assert_eq!(
        account,
        self::account(AccountStatus::Active, 6, 0, vec![], vec![(1, accepted_wdr(4))])
    );
}
