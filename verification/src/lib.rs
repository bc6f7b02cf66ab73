//! A small payment ledger: deposits, withdrawals and the deposit-dispute
//! lifecycle (dispute, resolve, chargeback), applied per client account in
//! arrival order, with a CSV front end and a CSV summary of every account.
//!
//! Every ledger rule is stated over a mathematical model of the account
//! ([`account::AccountModel`]) and proved of the executable code;
//! [`laws`] collects the properties that hold of every reachable account.

pub mod account;
pub mod account_summary;
pub mod account_transactor;
pub mod amount;
pub mod bytes;
pub mod laws;
pub mod model;
pub mod transaction_processor;
pub mod transaction_stream_processor;
pub mod transactors;
