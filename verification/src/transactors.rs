//! The five per-event transactors. Each one is a pure mutator of a single
//! account: it enforces its own preconditions at run time, makes its full
//! change or no change at all, and reports either a [`SuccessStatus`] or an
//! error describing exactly why nothing happened.
//!
//! The meaning of every transactor is pinned down by a specification
//! function over [`AccountModel`]; the executable code is proved to agree
//! with it on every input.

use vstd::prelude::*;

use crate::account::{Account, AccountModel, AccountStatus, Deposit, DepositStatus, Withdrawal, WithdrawalStatus};
use crate::account_transactor::SuccessStatus;
use crate::model::{Amount, TransactionId};

verus! {

broadcast use vstd::std_specs::hash::group_hash_axioms;

/// Why a deposit made no change.
#[derive(Debug, PartialEq, Eq, Structural, Clone, Copy)]
pub enum DepositorError {
    /// The account is locked and the deposit would have changed it.
    AccountLocked,
    /// A deposit with the same transaction id but a different amount is
    /// already on the ledger.
    ConflictingWithPreviousTransaction(TransactionId),
    /// The new available funds would not fit the fixed-point range.
    AmountOverflow,
}

/// Why a withdrawal made no change.
#[derive(Debug, PartialEq, Eq, Structural, Clone, Copy)]
pub enum WithdrawerError {
    /// The account is locked.
    AccountLocked,
    /// The available funds are smaller than the requested amount.
    InsufficientFund,
    /// A withdrawal with the same transaction id but a different amount is
    /// already on the ledger.
    ConflictingWithPreviousTransaction(TransactionId),
    /// The new available funds would not fit the fixed-point range.
    AmountOverflow,
}

/// Why a dispute made no change.
#[derive(Debug, PartialEq, Eq, Structural, Clone, Copy)]
pub enum DisputerError {
    /// The account is locked and the dispute would have changed it.
    AccountLocked,
    /// No deposit with this transaction id exists in this account.
    NoTransactionFound,
    /// The new snapshot would not fit the fixed-point range.
    AmountOverflow,
}

/// Why a resolve made no change.
#[derive(Debug, PartialEq, Eq, Structural, Clone, Copy)]
pub enum ResolverError {
    /// The account is locked and the resolve would have changed it.
    AccountLocked,
    /// The deposit exists but is not under dispute.
    NonDisputedTransaction,
    /// No deposit with this transaction id exists in this account.
    NoTransactionFound,
    /// The new snapshot would not fit the fixed-point range.
    AmountOverflow,
}

/// Why a chargeback made no change.
#[derive(Debug, PartialEq, Eq, Structural, Clone, Copy)]
pub enum BackchargerError {
    /// The account is locked and the chargeback would have changed it.
    AccountLocked,
    /// The deposit exists but is not under dispute.
    NonDisputedTransaction,
    /// No deposit with this transaction id exists in this account.
    NoTransactionFound,
    /// The new snapshot would not fit the fixed-point range.
    AmountOverflow,
}

/// Whether an integer fits the `i64` fixed-point representation.
pub open spec fn fits_i64(v: int) -> bool {
    i64::MIN <= v <= i64::MAX
}

/// What a deposit does to an account.
///
/// A deposit whose transaction id is already on the ledger with the same
/// amount is an idempotent replay and reports `Duplicate`, even on a locked
/// account, since no change would have occurred. Otherwise a locked account
/// refuses the event; a fresh id adds the amount to the available funds and
/// records the deposit as `Accepted`.
pub open spec fn spec_deposit(
    a: AccountModel,
    transaction_id: TransactionId,
    amount: Amount,
) -> (AccountModel, Result<SuccessStatus, DepositorError>) {
    if a.deposits.contains_key(transaction_id) {
        if a.deposits[transaction_id].amount == amount {
            (a, Ok(SuccessStatus::Duplicate))
        } else if a.status is Locked {
            (a, Err(DepositorError::AccountLocked))
        } else {
            (a, Err(DepositorError::ConflictingWithPreviousTransaction(transaction_id)))
        }
    } else if a.status is Locked {
        (a, Err(DepositorError::AccountLocked))
    } else if !fits_i64(a.available + amount.0) {
        (a, Err(DepositorError::AmountOverflow))
    } else {
        (
            AccountModel {
                available: a.available + amount.0,
                deposits: a.deposits.insert(
                    transaction_id,
                    Deposit { amount, status: DepositStatus::Accepted },
                ),
                ..a
            },
            Ok(SuccessStatus::Transacted),
        )
    }
}

/// What a withdrawal does to an account.
///
/// The checks run in this order: a locked account refuses the event; then
/// the available funds must cover a positive amount; then a replay with the
/// same amount reports `Duplicate`; a fresh id subtracts the amount from the
/// available funds and records the withdrawal as `Accepted`.
pub open spec fn spec_withdraw(
    a: AccountModel,
    transaction_id: TransactionId,
    amount: Amount,
) -> (AccountModel, Result<SuccessStatus, WithdrawerError>) {
    if a.status is Locked {
        (a, Err(WithdrawerError::AccountLocked))
    } else if amount.0 > 0 && a.available < amount.0 {
        (a, Err(WithdrawerError::InsufficientFund))
    } else if a.withdrawals.contains_key(transaction_id) {
        if a.withdrawals[transaction_id].amount == amount {
            (a, Ok(SuccessStatus::Duplicate))
        } else {
            (a, Err(WithdrawerError::ConflictingWithPreviousTransaction(transaction_id)))
        }
    } else if !fits_i64(a.available - amount.0) {
        (a, Err(WithdrawerError::AmountOverflow))
    } else {
        (
            AccountModel {
                available: a.available - amount.0,
                withdrawals: a.withdrawals.insert(
                    transaction_id,
                    Withdrawal { amount, status: WithdrawalStatus::Accepted },
                ),
                ..a
            },
            Ok(SuccessStatus::Transacted),
        )
    }
}

/// What a dispute does to an account.
///
/// The deposit is looked up first; only a dispute that would change state is
/// refused on a locked account. An `Accepted` deposit moves its amount from
/// available to held and becomes `Held`; a deposit in any later state makes
/// the dispute an idempotent replay.
pub open spec fn spec_dispute(
    a: AccountModel,
    transaction_id: TransactionId,
) -> (AccountModel, Result<SuccessStatus, DisputerError>) {
    if a.deposits.contains_key(transaction_id) {
        let deposit = a.deposits[transaction_id];
        match deposit.status {
            DepositStatus::Accepted => {
                if a.status is Locked {
                    (a, Err(DisputerError::AccountLocked))
                } else if !fits_i64(a.available - deposit.amount.0) || !fits_i64(
                    a.held + deposit.amount.0,
                ) {
                    (a, Err(DisputerError::AmountOverflow))
                } else {
                    (
                        AccountModel {
                            available: a.available - deposit.amount.0,
                            held: a.held + deposit.amount.0,
                            deposits: a.deposits.insert(
                                transaction_id,
                                Deposit { amount: deposit.amount, status: DepositStatus::Held },
                            ),
                            ..a
                        },
                        Ok(SuccessStatus::Transacted),
                    )
                }
            },
            _ => (a, Ok(SuccessStatus::Duplicate)),
        }
    } else if a.status is Locked {
        (a, Err(DisputerError::AccountLocked))
    } else {
        (a, Err(DisputerError::NoTransactionFound))
    }
}

/// What a resolve does to an account.
///
/// A `Held` deposit moves its amount back from held to available and becomes
/// `Resolved`; resolving a deposit already `Resolved` is an idempotent
/// replay; a deposit that was never disputed, or already charged back, is a
/// non-disputed transaction. Lock checks apply only where a change would
/// have occurred.
pub open spec fn spec_resolve(
    a: AccountModel,
    transaction_id: TransactionId,
) -> (AccountModel, Result<SuccessStatus, ResolverError>) {
    if a.deposits.contains_key(transaction_id) {
        let deposit = a.deposits[transaction_id];
        match deposit.status {
            DepositStatus::Held => {
                if a.status is Locked {
                    (a, Err(ResolverError::AccountLocked))
                } else if !fits_i64(a.available + deposit.amount.0) || !fits_i64(
                    a.held - deposit.amount.0,
                ) {
                    (a, Err(ResolverError::AmountOverflow))
                } else {
                    (
                        AccountModel {
                            available: a.available + deposit.amount.0,
                            held: a.held - deposit.amount.0,
                            deposits: a.deposits.insert(
                                transaction_id,
                                Deposit {
                                    amount: deposit.amount,
                                    status: DepositStatus::Resolved,
                                },
                            ),
                            ..a
                        },
                        Ok(SuccessStatus::Transacted),
                    )
                }
            },
            DepositStatus::Resolved => (a, Ok(SuccessStatus::Duplicate)),
            _ => {
                if a.status is Locked {
                    (a, Err(ResolverError::AccountLocked))
                } else {
                    (a, Err(ResolverError::NonDisputedTransaction))
                }
            },
        }
    } else if a.status is Locked {
        (a, Err(ResolverError::AccountLocked))
    } else {
        (a, Err(ResolverError::NoTransactionFound))
    }
}

/// What a chargeback does to an account.
///
/// A `Held` deposit loses its amount from the held funds, becomes
/// `ChargedBack`, and locks the account: this is the only transition that
/// locks. Charging back a deposit already `ChargedBack` is an idempotent
/// replay, even though the account is locked by then.
pub open spec fn spec_chargeback(
    a: AccountModel,
    transaction_id: TransactionId,
) -> (AccountModel, Result<SuccessStatus, BackchargerError>) {
    if a.deposits.contains_key(transaction_id) {
        let deposit = a.deposits[transaction_id];
        match deposit.status {
            DepositStatus::Held => {
                if a.status is Locked {
                    (a, Err(BackchargerError::AccountLocked))
                } else if !fits_i64(a.held - deposit.amount.0) {
                    (a, Err(BackchargerError::AmountOverflow))
                } else {
                    (
                        AccountModel {
                            status: AccountStatus::Locked,
                            held: a.held - deposit.amount.0,
                            deposits: a.deposits.insert(
                                transaction_id,
                                Deposit {
                                    amount: deposit.amount,
                                    status: DepositStatus::ChargedBack,
                                },
                            ),
                            ..a
                        },
                        Ok(SuccessStatus::Transacted),
                    )
                }
            },
            DepositStatus::ChargedBack => (a, Ok(SuccessStatus::Duplicate)),
            _ => {
                if a.status is Locked {
                    (a, Err(BackchargerError::AccountLocked))
                } else {
                    (a, Err(BackchargerError::NonDisputedTransaction))
                }
            },
        }
    } else if a.status is Locked {
        (a, Err(BackchargerError::AccountLocked))
    } else {
        (a, Err(BackchargerError::NoTransactionFound))
    }
}

/// Applies deposits to an account.
pub struct SimpleDepositor;

/// Applies withdrawals to an account.
pub struct SimpleWithdrawer;

/// Applies disputes to an account; only deposits are disputable.
pub struct CreditDisputer;

/// Resolves disputed deposits.
pub struct CreditResolver;

/// Charges back disputed deposits, locking the account.
pub struct CreditBackcharger;

impl SimpleDepositor {
    /// Credits `amount` to the account under `transaction_id`, exactly as
    /// [`spec_deposit`] says.
    pub fn deposit(
        &self,
        account: &mut Account,
        transaction_id: TransactionId,
        amount: Amount,
    ) -> (result: Result<SuccessStatus, DepositorError>)
        ensures
            ({
                let (post, r) = spec_deposit(old(account)@, transaction_id, amount);
                final(account)@ == post && result == r
            }),
    {
        let ghost pre = account@;
        match account.deposits.get(&transaction_id) {
            Some(existing) => {
                if existing.amount.0 == amount.0 {
                    Ok(SuccessStatus::Duplicate)
                } else if matches!(account.status, AccountStatus::Locked) {
                    Err(DepositorError::AccountLocked)
                } else {
                    Err(DepositorError::ConflictingWithPreviousTransaction(transaction_id))
                }
            },
            None => {
                if matches!(account.status, AccountStatus::Locked) {
                    return Err(DepositorError::AccountLocked);
                }
                match account.account_snapshot.available.0.checked_add(amount.0) {
                    None => Err(DepositorError::AmountOverflow),
                    Some(new_available) => {
                        account.account_snapshot.available.0 = new_available;
                        account.deposits.insert(
                            transaction_id,
                            Deposit { amount, status: DepositStatus::Accepted },
                        );
                        proof {
                            assert(account@ =~~= spec_deposit(pre, transaction_id, amount).0);
                        }
                        Ok(SuccessStatus::Transacted)
                    },
                }
            },
        }
    }
}

impl SimpleWithdrawer {
    /// Debits `amount` from the account under `transaction_id`, exactly as
    /// [`spec_withdraw`] says.
    pub fn withdraw(
        &self,
        account: &mut Account,
        transaction_id: TransactionId,
        amount: Amount,
    ) -> (result: Result<SuccessStatus, WithdrawerError>)
        ensures
            ({
                let (post, r) = spec_withdraw(old(account)@, transaction_id, amount);
                final(account)@ == post && result == r
            }),
    {
        let ghost pre = account@;
        if matches!(account.status, AccountStatus::Locked) {
            return Err(WithdrawerError::AccountLocked);
        }
        if amount.0 > 0 && account.account_snapshot.available.0 < amount.0 {
            return Err(WithdrawerError::InsufficientFund);
        }
        match account.withdrawals.get(&transaction_id) {
            Some(existing) => {
                if existing.amount.0 == amount.0 {
                    Ok(SuccessStatus::Duplicate)
                } else {
                    Err(WithdrawerError::ConflictingWithPreviousTransaction(transaction_id))
                }
            },
            None => {
                match account.account_snapshot.available.0.checked_sub(amount.0) {
                    None => Err(WithdrawerError::AmountOverflow),
                    Some(new_available) => {
                        account.account_snapshot.available.0 = new_available;
                        account.withdrawals.insert(
                            transaction_id,
                            Withdrawal { amount, status: WithdrawalStatus::Accepted },
                        );
                        proof {
                            assert(account@ =~~= spec_withdraw(pre, transaction_id, amount).0);
                        }
                        Ok(SuccessStatus::Transacted)
                    },
                }
            },
        }
    }
}

impl CreditDisputer {
    /// Puts the deposit under `transaction_id` on hold, exactly as
    /// [`spec_dispute`] says.
    pub fn dispute(
        &self,
        account: &mut Account,
        transaction_id: TransactionId,
    ) -> (result: Result<SuccessStatus, DisputerError>)
        ensures
            ({
                let (post, r) = spec_dispute(old(account)@, transaction_id);
                final(account)@ == post && result == r
            }),
    {
        let ghost pre = account@;
        match account.deposits.get(&transaction_id) {
            Some(deposit) => {
                let deposit = *deposit;
                match deposit.status {
                    DepositStatus::Accepted => {
                        if matches!(account.status, AccountStatus::Locked) {
                            return Err(DisputerError::AccountLocked);
                        }
                        let new_available =
                            account.account_snapshot.available.0.checked_sub(deposit.amount.0);
                        let new_held =
                            account.account_snapshot.held.0.checked_add(deposit.amount.0);
                        match (new_available, new_held) {
                            (Some(new_available), Some(new_held)) => {
                                account.account_snapshot.available.0 = new_available;
                                account.account_snapshot.held.0 = new_held;
                                account.deposits.insert(
                                    transaction_id,
                                    Deposit {
                                        amount: deposit.amount,
                                        status: DepositStatus::Held,
                                    },
                                );
                                proof {
                                    assert(account@ =~~= spec_dispute(pre, transaction_id).0);
                                }
                                Ok(SuccessStatus::Transacted)
                            },
                            _ => Err(DisputerError::AmountOverflow),
                        }
                    },
                    _ => Ok(SuccessStatus::Duplicate),
                }
            },
            None => {
                if matches!(account.status, AccountStatus::Locked) {
                    Err(DisputerError::AccountLocked)
                } else {
                    Err(DisputerError::NoTransactionFound)
                }
            },
        }
    }
}

impl CreditResolver {
    /// Concludes the dispute under `transaction_id` in the client's favour,
    /// exactly as [`spec_resolve`] says.
    pub fn resolve(
        &self,
        account: &mut Account,
        transaction_id: TransactionId,
    ) -> (result: Result<SuccessStatus, ResolverError>)
        ensures
            ({
                let (post, r) = spec_resolve(old(account)@, transaction_id);
                final(account)@ == post && result == r
            }),
    {
        let ghost pre = account@;
        match account.deposits.get(&transaction_id) {
            Some(deposit) => {
                let deposit = *deposit;
                match deposit.status {
                    DepositStatus::Held => {
                        if matches!(account.status, AccountStatus::Locked) {
                            return Err(ResolverError::AccountLocked);
                        }
                        let new_available =
                            account.account_snapshot.available.0.checked_add(deposit.amount.0);
                        let new_held =
                            account.account_snapshot.held.0.checked_sub(deposit.amount.0);
                        match (new_available, new_held) {
                            (Some(new_available), Some(new_held)) => {
                                account.account_snapshot.available.0 = new_available;
                                account.account_snapshot.held.0 = new_held;
                                account.deposits.insert(
                                    transaction_id,
                                    Deposit {
                                        amount: deposit.amount,
                                        status: DepositStatus::Resolved,
                                    },
                                );
                                proof {
                                    assert(account@ =~~= spec_resolve(pre, transaction_id).0);
                                }
                                Ok(SuccessStatus::Transacted)
                            },
                            _ => Err(ResolverError::AmountOverflow),
                        }
                    },
                    DepositStatus::Resolved => Ok(SuccessStatus::Duplicate),
                    _ => {
                        if matches!(account.status, AccountStatus::Locked) {
                            Err(ResolverError::AccountLocked)
                        } else {
                            Err(ResolverError::NonDisputedTransaction)
                        }
                    },
                }
            },
            None => {
                if matches!(account.status, AccountStatus::Locked) {
                    Err(ResolverError::AccountLocked)
                } else {
                    Err(ResolverError::NoTransactionFound)
                }
            },
        }
    }
}

impl CreditBackcharger {
    /// Concludes the dispute under `transaction_id` against the client and
    /// locks the account, exactly as [`spec_chargeback`] says.
    pub fn chargeback(
        &self,
        account: &mut Account,
        transaction_id: TransactionId,
    ) -> (result: Result<SuccessStatus, BackchargerError>)
        ensures
            ({
                let (post, r) = spec_chargeback(old(account)@, transaction_id);
                final(account)@ == post && result == r
            }),
    {
        let ghost pre = account@;
        match account.deposits.get(&transaction_id) {
            Some(deposit) => {
                let deposit = *deposit;
                match deposit.status {
                    DepositStatus::Held => {
                        if matches!(account.status, AccountStatus::Locked) {
                            return Err(BackchargerError::AccountLocked);
                        }
                        match account.account_snapshot.held.0.checked_sub(deposit.amount.0) {
                            None => Err(BackchargerError::AmountOverflow),
                            Some(new_held) => {
                                account.account_snapshot.held.0 = new_held;
                                account.deposits.insert(
                                    transaction_id,
                                    Deposit {
                                        amount: deposit.amount,
                                        status: DepositStatus::ChargedBack,
                                    },
                                );
                                account.status = AccountStatus::Locked;
                                proof {
                                    assert(account@ =~~= spec_chargeback(pre, transaction_id).0);
                                }
                                Ok(SuccessStatus::Transacted)
                            },
                        }
                    },
                    DepositStatus::ChargedBack => Ok(SuccessStatus::Duplicate),
                    _ => {
                        if matches!(account.status, AccountStatus::Locked) {
                            Err(BackchargerError::AccountLocked)
                        } else {
                            Err(BackchargerError::NonDisputedTransaction)
                        }
                    },
                }
            },
            None => {
                if matches!(account.status, AccountStatus::Locked) {
                    Err(BackchargerError::AccountLocked)
                } else {
                    Err(BackchargerError::NoTransactionFound)
                }
            },
        }
    }
}

} // verus!
