//! The transaction processor: owns every account seen so far, creates an
//! account on first sight of its client, and applies each transaction to
//! the right account in the order the transactions are handed in.

use vstd::prelude::*;

use crate::account::{Account, AccountModel};
use crate::account_transactor::{
    spec_transact, AccountTransactor, AccountTransactorError, SimpleAccountTransactor,
};
use crate::model::{ClientId, Transaction};

verus! {

broadcast use vstd::std_specs::hash::group_hash_axioms;

/// Everything that can go wrong while processing one transaction.
#[derive(Debug, PartialEq, Clone, Copy)]
pub enum TransactionProcessorError {
    /// The transaction was refused by the account it addressed.
    AccountTransactionError(Transaction, AccountTransactorError),
}

/// The account a client holds in the map, or a fresh one if the client has
/// not been seen yet.
pub open spec fn client_state(m: Map<ClientId, AccountModel>, client_id: ClientId) -> AccountModel {
    if m.contains_key(client_id) {
        m[client_id]
    } else {
        AccountModel::empty(client_id)
    }
}

/// What processing one transaction does to the per-client accounts: the
/// addressed account (created empty on first sight) takes the transaction,
/// and an error is tagged with the offending transaction.
pub open spec fn spec_process_one(
    accounts: Map<ClientId, AccountModel>,
    transaction: Transaction,
) -> (Map<ClientId, AccountModel>, Result<(), TransactionProcessorError>) {
    let before = client_state(accounts, transaction.client_id);
    let (after, r) = spec_transact(before, transaction);
    (
        accounts.insert(transaction.client_id, after),
        match r {
            Ok(_) => Ok(()),
            Err(e) => Err(TransactionProcessorError::AccountTransactionError(transaction, e)),
        },
    )
}

/// The per-client accounts after a whole sequence of transactions,
/// processed in order; refused transactions leave their account unchanged.
pub open spec fn spec_process_seq(
    accounts: Map<ClientId, AccountModel>,
    ts: Seq<Transaction>,
) -> Map<ClientId, AccountModel>
    decreases ts.len(),
{
    if ts.len() == 0 {
        accounts
    } else {
        spec_process_one(spec_process_seq(accounts, ts.drop_last()), ts.last()).0
    }
}

/// Something that can process a stream of transactions against a growing
/// set of per-client accounts.
pub trait TransactionProcessor {
    /// The accounts this processor has built so far, one per client seen.
    spec fn accounts_model(&self) -> Map<ClientId, AccountModel>;

    /// Applies one transaction, exactly as [`spec_process_one`] says.
    fn process(&mut self, transaction: Transaction) -> (result: Result<
        (),
        TransactionProcessorError,
    >)
        ensures
            ({
                let (m, r) = spec_process_one(old(self).accounts_model(), transaction);
                final(self).accounts_model() == m && result == r
            }),
    ;
}

/// The transaction processor used in production: a map of accounts keyed
/// by client, each mutated through the account transactor.
pub struct SimpleTransactionProcessor {
    accounts: std::collections::HashMap<ClientId, Account>,
    account_transaction_processor: SimpleAccountTransactor,
}

impl SimpleTransactionProcessor {
    /// Starts with no accounts at all.
    pub fn new() -> (processor: SimpleTransactionProcessor)
        ensures
            processor.accounts_model() == Map::<ClientId, AccountModel>::empty(),
    {
        let processor = SimpleTransactionProcessor {
            accounts: std::collections::HashMap::new(),
            account_transaction_processor: SimpleAccountTransactor::new(),
        };
        proof {
            assert(processor.accounts_model() =~= Map::<ClientId, AccountModel>::empty());
        }
        processor
    }

    /// The finished accounts, handed over for the summary once the stream
    /// is drained.
    pub fn into_accounts(self) -> (accounts: std::collections::HashMap<ClientId, Account>)
        ensures
            accounts@.map_values(|a: Account| a@) == self.accounts_model(),
            forall|c: ClientId| #[trigger] accounts@.contains_key(c)
                <==> self.accounts_model().contains_key(c),
    {
        proof {
            assert(forall|c: ClientId| #[trigger] self.accounts@.contains_key(c)
                <==> self.accounts@.map_values(|a: Account| a@).contains_key(c));
        }
        self.accounts
    }
}

impl TransactionProcessor for SimpleTransactionProcessor {
    closed spec fn accounts_model(&self) -> Map<ClientId, AccountModel> {
        self.accounts@.map_values(|a: Account| a@)
    }

    fn process(&mut self, transaction: Transaction) -> (result: Result<
        (),
        TransactionProcessorError,
    >) {
        let ghost pre = self.accounts_model();
        let client_id = transaction.client_id;
        let mut account = match self.accounts.remove(&client_id) {
            Some(account) => account,
            None => Account::active(client_id),
        };
        proof {
            assert(account@ == client_state(pre, client_id));
        }
        let result = self.account_transaction_processor.transact(&mut account, transaction);
        self.accounts.insert(client_id, account);
        proof {
            assert(self.accounts_model() =~= pre.insert(client_id, account@));
        }
        match result {
            Ok(_) => Ok(()),
            Err(e) => Err(TransactionProcessorError::AccountTransactionError(transaction, e)),
        }
    }
}

} // verus!
