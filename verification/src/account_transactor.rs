//! The account transactor: dispatches one transaction to the right
//! per-event transactor by kind and normalizes the error it reports.

use vstd::prelude::*;

use crate::account::{Account, AccountModel};
use crate::model::{ClientId, Transaction, TransactionId, TransactionKind};
use crate::transactors::{
    spec_chargeback, spec_deposit, spec_dispute, spec_resolve, spec_withdraw, BackchargerError,
    CreditBackcharger, CreditDisputer, CreditResolver, DepositorError, DisputerError,
    ResolverError, SimpleDepositor, SimpleWithdrawer, WithdrawerError,
};

verus! {

/// How a transactor succeeded.
#[derive(Debug, PartialEq, Eq, Structural, Clone, Copy)]
pub enum SuccessStatus {
    /// The event changed the account.
    Transacted,
    /// The event was an idempotent replay: the account already was in the
    /// intended post-state, and nothing changed.
    Duplicate,
}

/// Reasons an event may be answered without any change to the account.
#[derive(Debug, PartialEq, Eq, Structural, Clone, Copy)]
pub enum NoOpReason {
    Duplicate,
    InsufficientFund,
}

/// Everything that can go wrong while transacting one event against an
/// account.
#[derive(Debug, PartialEq, Eq, Structural, Clone, Copy)]
pub enum AccountTransactorError {
    MismatchTransactionKind,
    AccountLocked(ClientId),
    ConflictingWithPreviousTransaction(TransactionId),
    TransactionNotFound(TransactionId, ClientId),
    IncompatibleTransaction(TransactionId),
    CannotDepositToLockedAccount,
    CannotWithdrawFromLockedAccount,
    InsufficientFundForWithdrawal,
    CannotDisputeAgainstLockedAccount,
    NoTransactionFound,
    CannotResolveLockedAccount,
    CannotResolveNonDisputedTransaction(TransactionId),
    CannotChargebackLockedAccount,
    CannotChargebackNonDisputedTransaction(TransactionId),
}

/// How [`spec_transact`] names a depositor's refusal.
pub open spec fn spec_deposit_error(
    e: DepositorError,
    transaction_id: TransactionId,
) -> AccountTransactorError {
    match e {
        DepositorError::AccountLocked => AccountTransactorError::CannotDepositToLockedAccount,
        DepositorError::ConflictingWithPreviousTransaction(id)
            => AccountTransactorError::ConflictingWithPreviousTransaction(id),
        DepositorError::AmountOverflow
            => AccountTransactorError::IncompatibleTransaction(transaction_id),
    }
}

/// How [`spec_transact`] names a withdrawer's refusal.
pub open spec fn spec_withdraw_error(
    e: WithdrawerError,
    transaction_id: TransactionId,
) -> AccountTransactorError {
    match e {
        WithdrawerError::AccountLocked => AccountTransactorError::CannotWithdrawFromLockedAccount,
        WithdrawerError::InsufficientFund
            => AccountTransactorError::InsufficientFundForWithdrawal,
        WithdrawerError::ConflictingWithPreviousTransaction(id)
            => AccountTransactorError::ConflictingWithPreviousTransaction(id),
        WithdrawerError::AmountOverflow
            => AccountTransactorError::IncompatibleTransaction(transaction_id),
    }
}

/// How [`spec_transact`] names a disputer's refusal.
pub open spec fn spec_dispute_error(
    e: DisputerError,
    transaction_id: TransactionId,
) -> AccountTransactorError {
    match e {
        DisputerError::AccountLocked => AccountTransactorError::CannotDisputeAgainstLockedAccount,
        DisputerError::NoTransactionFound => AccountTransactorError::NoTransactionFound,
        DisputerError::AmountOverflow
            => AccountTransactorError::IncompatibleTransaction(transaction_id),
    }
}

/// How [`spec_transact`] names a resolver's refusal.
pub open spec fn spec_resolve_error(
    e: ResolverError,
    transaction_id: TransactionId,
) -> AccountTransactorError {
    match e {
        ResolverError::AccountLocked => AccountTransactorError::CannotResolveLockedAccount,
        ResolverError::NonDisputedTransaction
            => AccountTransactorError::CannotResolveNonDisputedTransaction(transaction_id),
        ResolverError::NoTransactionFound => AccountTransactorError::NoTransactionFound,
        ResolverError::AmountOverflow
            => AccountTransactorError::IncompatibleTransaction(transaction_id),
    }
}

/// How [`spec_transact`] names a backcharger's refusal.
pub open spec fn spec_chargeback_error(
    e: BackchargerError,
    transaction_id: TransactionId,
) -> AccountTransactorError {
    match e {
        BackchargerError::AccountLocked => AccountTransactorError::CannotChargebackLockedAccount,
        BackchargerError::NonDisputedTransaction
            => AccountTransactorError::CannotChargebackNonDisputedTransaction(transaction_id),
        BackchargerError::NoTransactionFound => AccountTransactorError::NoTransactionFound,
        BackchargerError::AmountOverflow
            => AccountTransactorError::IncompatibleTransaction(transaction_id),
    }
}

/// What transacting one event does to an account: the dispatch over the
/// event kind, composed with the per-event transition, the success status
/// dropped and the error normalized.
pub open spec fn spec_transact(
    a: AccountModel,
    transaction: Transaction,
) -> (AccountModel, Result<(), AccountTransactorError>) {
    let transaction_id = transaction.transaction_id;
    match transaction.kind {
        TransactionKind::Deposit { amount } => {
            let (post, r) = spec_deposit(a, transaction_id, amount);
            match r {
                Ok(_) => (post, Ok(())),
                Err(e) => (post, Err(spec_deposit_error(e, transaction_id))),
            }
        },
        TransactionKind::Withdrawal { amount } => {
            let (post, r) = spec_withdraw(a, transaction_id, amount);
            match r {
                Ok(_) => (post, Ok(())),
                Err(e) => (post, Err(spec_withdraw_error(e, transaction_id))),
            }
        },
        TransactionKind::Dispute => {
            let (post, r) = spec_dispute(a, transaction_id);
            match r {
                Ok(_) => (post, Ok(())),
                Err(e) => (post, Err(spec_dispute_error(e, transaction_id))),
            }
        },
        TransactionKind::Resolve => {
            let (post, r) = spec_resolve(a, transaction_id);
            match r {
                Ok(_) => (post, Ok(())),
                Err(e) => (post, Err(spec_resolve_error(e, transaction_id))),
            }
        },
        TransactionKind::ChargeBack => {
            let (post, r) = spec_chargeback(a, transaction_id);
            match r {
                Ok(_) => (post, Ok(())),
                Err(e) => (post, Err(spec_chargeback_error(e, transaction_id))),
            }
        },
    }
}

/// Something that can apply one transaction to an account.
pub trait AccountTransactor {
    /// Applies `transaction` to `account`, exactly as [`spec_transact`]
    /// says: the full change on success, no change at all on error.
    fn transact(
        &self,
        account: &mut Account,
        transaction: Transaction,
    ) -> (result: Result<(), AccountTransactorError>)
        ensures
            ({
                let (post, r) = spec_transact(old(account)@, transaction);
                final(account)@ == post && result == r
            }),
    ;
}

/// The account transactor used in production: one per-event transactor of
/// each kind, dispatched by a closed match over the transaction kind.
pub struct SimpleAccountTransactor {
    depositor: SimpleDepositor,
    withdrawer: SimpleWithdrawer,
    disputer: CreditDisputer,
    resolver: CreditResolver,
    backcharger: CreditBackcharger,
}

impl SimpleAccountTransactor {
    /// Assembles the production transactor.
    pub fn new() -> SimpleAccountTransactor {
        SimpleAccountTransactor {
            depositor: SimpleDepositor,
            withdrawer: SimpleWithdrawer,
            disputer: CreditDisputer,
            resolver: CreditResolver,
            backcharger: CreditBackcharger,
        }
    }
}

impl AccountTransactor for SimpleAccountTransactor {
    fn transact(
        &self,
        account: &mut Account,
        transaction: Transaction,
    ) -> (result: Result<(), AccountTransactorError>)
    {
        let transaction_id = transaction.transaction_id;
        match transaction.kind {
            TransactionKind::Deposit { amount } => {
                match self.depositor.deposit(account, transaction_id, amount) {
                    Ok(_) => Ok(()),
                    Err(DepositorError::AccountLocked) => Err(
                        AccountTransactorError::CannotDepositToLockedAccount,
                    ),
                    Err(DepositorError::ConflictingWithPreviousTransaction(id)) => Err(
                        AccountTransactorError::ConflictingWithPreviousTransaction(id),
                    ),
                    Err(DepositorError::AmountOverflow) => Err(
                        AccountTransactorError::IncompatibleTransaction(transaction_id),
                    ),
                }
            },
            TransactionKind::Withdrawal { amount } => {
                match self.withdrawer.withdraw(account, transaction_id, amount) {
                    Ok(_) => Ok(()),
                    Err(WithdrawerError::AccountLocked) => Err(
                        AccountTransactorError::CannotWithdrawFromLockedAccount,
                    ),
                    Err(WithdrawerError::InsufficientFund) => Err(
                        AccountTransactorError::InsufficientFundForWithdrawal,
                    ),
                    Err(WithdrawerError::ConflictingWithPreviousTransaction(id)) => Err(
                        AccountTransactorError::ConflictingWithPreviousTransaction(id),
                    ),
                    Err(WithdrawerError::AmountOverflow) => Err(
                        AccountTransactorError::IncompatibleTransaction(transaction_id),
                    ),
                }
            },
            TransactionKind::Dispute => {
                match self.disputer.dispute(account, transaction_id) {
                    Ok(_) => Ok(()),
                    Err(DisputerError::AccountLocked) => Err(
                        AccountTransactorError::CannotDisputeAgainstLockedAccount,
                    ),
                    Err(DisputerError::NoTransactionFound) => Err(
                        AccountTransactorError::NoTransactionFound,
                    ),
                    Err(DisputerError::AmountOverflow) => Err(
                        AccountTransactorError::IncompatibleTransaction(transaction_id),
                    ),
                }
            },
            TransactionKind::Resolve => {
                match self.resolver.resolve(account, transaction_id) {
                    Ok(_) => Ok(()),
                    Err(ResolverError::AccountLocked) => Err(
                        AccountTransactorError::CannotResolveLockedAccount,
                    ),
                    Err(ResolverError::NonDisputedTransaction) => Err(
                        AccountTransactorError::CannotResolveNonDisputedTransaction(
                            transaction_id,
                        ),
                    ),
                    Err(ResolverError::NoTransactionFound) => Err(
                        AccountTransactorError::NoTransactionFound,
                    ),
                    Err(ResolverError::AmountOverflow) => Err(
                        AccountTransactorError::IncompatibleTransaction(transaction_id),
                    ),
                }
            },
            TransactionKind::ChargeBack => {
                match self.backcharger.chargeback(account, transaction_id) {
                    Ok(_) => Ok(()),
                    Err(BackchargerError::AccountLocked) => Err(
                        AccountTransactorError::CannotChargebackLockedAccount,
                    ),
                    Err(BackchargerError::NonDisputedTransaction) => Err(
                        AccountTransactorError::CannotChargebackNonDisputedTransaction(
                            transaction_id,
                        ),
                    ),
                    Err(BackchargerError::NoTransactionFound) => Err(
                        AccountTransactorError::NoTransactionFound,
                    ),
                    Err(BackchargerError::AmountOverflow) => Err(
                        AccountTransactorError::IncompatibleTransaction(transaction_id),
                    ),
                }
            },
        }
    }
}

} // verus!
