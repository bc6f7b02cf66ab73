//! Scalar types shared by the whole ledger: client and transaction ids, the
//! fixed-point amount, and the incoming transaction events.

use vstd::prelude::*;

verus! {

/// A client is identified by an unsigned 16-bit integer.
pub type ClientId = u16;

/// A transaction is identified by an unsigned 32-bit integer, unique across
/// the whole input stream.
pub type TransactionId = u32;

/// The amount type used throughout the ledger.
pub type Amount = Amount4DecimalBased;

/// A signed fixed-point amount, stored as an `i64` count of 1/10,000 units,
/// so that four fractional decimal digits are kept exactly.
#[derive(Debug, PartialEq, Eq, Structural, Clone, Copy)]
pub struct Amount4DecimalBased(pub i64);

impl Amount4DecimalBased {
    /// The mathematical value of this amount, in 1/10,000 units.
    pub open spec fn as_int(self) -> int {
        self.0 as int
    }
}

/// One event of the input stream, addressed to one client's account.
#[derive(Debug, PartialEq, Clone, Copy)]
pub struct Transaction {
    pub client_id: ClientId,
    pub transaction_id: TransactionId,
    pub kind: TransactionKind,
}

/// The kinds of transactions the ledger accepts.
#[derive(Debug, PartialEq, Clone, Copy)]
pub enum TransactionKind {
    Deposit { amount: Amount },
    Withdrawal { amount: Amount },
    Dispute,
    Resolve,
    ChargeBack,
}

} // verus!
