//! The in-memory state of one client's account: a snapshot of available and
//! held funds, a status, and the ledgers of past deposits and withdrawals.

use vstd::prelude::*;

use crate::model::{Amount, Amount4DecimalBased, ClientId, TransactionId};

verus! {

/// The snapshot of an account: the funds usable by the client and the funds
/// set aside pending dispute resolution. The total of the account is the
/// derived value `available + held` and is never stored.
#[derive(Debug, PartialEq, Clone, Copy)]
pub struct AccountSnapshot {
    pub available: Amount,
    pub held: Amount,
}

/// Whether an account still accepts transactions.
#[derive(Debug, PartialEq, Eq, Structural, Clone, Copy)]
pub enum AccountStatus {
    /// The account is active, and is open to transactions.
    Active,

    /// The account is locked and is closed to transactions.
    Locked,
}

/// The lifecycle of one deposit inside its account's ledger.
#[derive(Debug, PartialEq, Eq, Structural, Clone, Copy)]
pub enum DepositStatus {
    /// The initial state of an accepted deposit.
    Accepted,

    /// An accepted deposit that has been disputed: its amount has moved from
    /// the available funds to the held funds, pending resolution.
    Held,

    /// A disputed deposit concluded in the client's favour: the amount is
    /// available again.
    Resolved,

    /// A disputed deposit that was reversed; the account is locked from the
    /// moment this happens.
    ChargedBack,
}

/// One deposit as recorded in an account's ledger.
#[derive(Debug, PartialEq, Clone, Copy)]
pub struct Deposit {
    pub amount: Amount,
    pub status: DepositStatus,
}

/// The lifecycle of one withdrawal. Withdrawals are recorded but are not
/// disputable, so the only state is the initial one.
#[derive(Debug, PartialEq, Eq, Structural, Clone, Copy)]
pub enum WithdrawalStatus {
    /// The initial state of an accepted withdrawal.
    Accepted,
}

/// One withdrawal as recorded in an account's ledger.
#[derive(Debug, PartialEq, Clone, Copy)]
pub struct Withdrawal {
    pub amount: Amount,
    pub status: WithdrawalStatus,
}

/// An account: the per-client state that transactions mutate.
#[derive(Debug, PartialEq, Clone)]
pub struct Account {
    pub client_id: ClientId,
    pub status: AccountStatus,
    pub account_snapshot: AccountSnapshot,
    pub deposits: std::collections::HashMap<TransactionId, Deposit>,
    pub withdrawals: std::collections::HashMap<TransactionId, Withdrawal>,
}

/// The mathematical value of an account, over which every contract of this
/// crate speaks: unbounded integers for the funds and `Map`s for the ledgers.
pub ghost struct AccountModel {
    pub client_id: ClientId,
    pub status: AccountStatus,
    pub available: int,
    pub held: int,
    pub deposits: Map<TransactionId, Deposit>,
    pub withdrawals: Map<TransactionId, Withdrawal>,
}

impl View for Account {
    type V = AccountModel;

    open spec fn view(&self) -> AccountModel {
        AccountModel {
            client_id: self.client_id,
            status: self.status,
            available: self.account_snapshot.available.0 as int,
            held: self.account_snapshot.held.0 as int,
            deposits: self.deposits@,
            withdrawals: self.withdrawals@,
        }
    }
}

impl AccountModel {
    /// An account model whose funds fit the fixed-point representation.
    pub open spec fn fits(self) -> bool {
        &&& i64::MIN <= self.available <= i64::MAX
        &&& i64::MIN <= self.held <= i64::MAX
    }

    /// The model of a freshly created account: active, zeroed snapshot,
    /// empty ledgers.
    pub open spec fn empty(client_id: ClientId) -> AccountModel {
        AccountModel {
            client_id,
            status: AccountStatus::Active,
            available: 0,
            held: 0,
            deposits: Map::empty(),
            withdrawals: Map::empty(),
        }
    }
}

impl Account {
    /// Creates an active account with a zeroed snapshot and empty ledgers.
    pub fn active(client_id: ClientId) -> (account: Account)
        ensures
            account@ == AccountModel::empty(client_id),
    {
        let account = Account {
            client_id,
            status: AccountStatus::Active,
            account_snapshot: AccountSnapshot::empty(),
            deposits: std::collections::HashMap::new(),
            withdrawals: std::collections::HashMap::new(),
        };
        proof {
            assert(account@ =~~= AccountModel::empty(client_id));
        }
        account
    }

    /// Assembles an account from its parts.
    pub fn new(
        client_id: ClientId,
        status: AccountStatus,
        account_snapshot: AccountSnapshot,
        deposits: std::collections::HashMap<TransactionId, Deposit>,
        withdrawals: std::collections::HashMap<TransactionId, Withdrawal>,
    ) -> (account: Account)
        ensures
            account@ == (AccountModel {
                client_id,
                status,
                available: account_snapshot.available.0 as int,
                held: account_snapshot.held.0 as int,
                deposits: deposits@,
                withdrawals: withdrawals@,
            }),
    {
        Account { client_id, status, account_snapshot, deposits, withdrawals }
    }
}

impl AccountSnapshot {
    /// A snapshot holding the two given amounts of 1/10,000 units.
    pub fn new(available: i64, held: i64) -> (snapshot: AccountSnapshot)
        ensures
            snapshot.available.0 == available,
            snapshot.held.0 == held,
    {
        AccountSnapshot {
            available: Amount4DecimalBased(available),
            held: Amount4DecimalBased(held),
        }
    }

    /// The zeroed snapshot of a fresh account.
    pub fn empty() -> (snapshot: AccountSnapshot)
        ensures
            snapshot.available.0 == 0,
            snapshot.held.0 == 0,
    {
        Self::new(0, 0)
    }
}

} // verus!
