//! The laws of the ledger: properties that hold of every account reached by
//! applying transactions, proved once and for all over the account model.

use vstd::prelude::*;

use crate::account::{AccountModel, Deposit, Withdrawal};
use crate::account_transactor::{spec_transact, SuccessStatus};
use crate::model::{ClientId, Transaction, TransactionId};
use crate::transactors::{
    fits_i64, spec_chargeback, spec_dispute, spec_resolve, DisputerError, ResolverError,
};
use crate::transaction_processor::{client_state, spec_process_one, spec_process_seq};
use crate::transaction_stream_processor::{
    spec_parse_record, spec_run, spec_to_transaction,
};
use vstd::set::fold::{is_fun_commutative, lemma_fold_empty, lemma_fold_insert};
use vstd::set_lib::lemma_map_size_bound;

verus! {

/// Folds one ledger entry into a running sum.
pub open spec fn entry_adder<V>(weight: spec_fn(V) -> int) -> spec_fn(
    int,
    (TransactionId, V),
) -> int {
    |acc: int, kv: (TransactionId, V)| acc + weight(kv.1)
}

/// The sum of `weight` over every entry of a ledger.
pub open spec fn sum_entries<V>(m: Map<TransactionId, V>, weight: spec_fn(V) -> int) -> int {
    m.kv_pairs().fold(0, entry_adder(weight))
}

proof fn lemma_adder_commutative<V>(weight: spec_fn(V) -> int)
    ensures
        is_fun_commutative(entry_adder(weight)),
{
}

proof fn lemma_kv_pairs_finite<V>(m: Map<TransactionId, V>)
    requires
        m.dom().finite(),
    ensures
        m.kv_pairs().finite(),
{
    let f = |k: TransactionId| (k, m[k]);
    assert forall|kv: (TransactionId, V)| m.kv_pairs().contains(kv) implies m.dom().map(
        f,
    ).contains(kv) by {
        assert(m.dom().contains(kv.0) && kv == f(kv.0));
    }
    assert(m.dom().map(f) =~= m.kv_pairs());
    lemma_map_size_bound(m.dom(), m.kv_pairs(), f);
}

/// An empty ledger sums to zero.
proof fn lemma_sum_empty<V>(weight: spec_fn(V) -> int)
    ensures
        sum_entries(Map::empty(), weight) == 0,
{
    assert(Map::<TransactionId, V>::empty().kv_pairs() =~= Set::<(TransactionId, V)>::empty());
    lemma_fold_empty(0, entry_adder(weight));
}

/// Adding a fresh entry adds its share to the sum.
proof fn lemma_sum_insert_fresh<V>(
    m: Map<TransactionId, V>,
    k: TransactionId,
    v: V,
    weight: spec_fn(V) -> int,
)
    requires
        m.dom().finite(),
        !m.contains_key(k),
    ensures
        sum_entries(m.insert(k, v), weight) == sum_entries(m, weight) + weight(v),
{
    lemma_adder_commutative(weight);
    lemma_kv_pairs_finite(m);
    assert(m.insert(k, v).kv_pairs() =~= m.kv_pairs().insert((k, v)));
    assert(!m.kv_pairs().contains((k, v)));
    lemma_fold_insert(m.kv_pairs(), 0, entry_adder(weight), (k, v));
}

/// Replacing an existing entry trades the old share for the new one.
proof fn lemma_sum_update<V>(
    m: Map<TransactionId, V>,
    k: TransactionId,
    v: V,
    weight: spec_fn(V) -> int,
)
    requires
        m.dom().finite(),
        m.contains_key(k),
    ensures
        sum_entries(m.insert(k, v), weight) == sum_entries(m, weight) - weight(m[k]) + weight(
            v,
        ),
{
    let base = m.remove(k);
    assert(base.dom().finite());
    assert(!base.contains_key(k));
    assert(m =~= base.insert(k, m[k]));
    assert(m.insert(k, v) =~= base.insert(k, v));
    lemma_sum_insert_fresh(base, k, m[k], weight);
    lemma_sum_insert_fresh(base, k, v, weight);
}

/// What one deposit adds to the account's total funds: its amount,
/// unless it was charged back.
pub open spec fn deposit_weight(d: Deposit) -> int {
    if d.status is ChargedBack {
        0
    } else {
        d.amount.0 as int
    }
}

/// [`deposit_weight`] as a function value.
pub open spec fn deposit_weight_fn() -> spec_fn(Deposit) -> int {
    |d: Deposit| deposit_weight(d)
}

/// What one withdrawal counts against the account's total funds: its
/// amount.
pub open spec fn withdrawal_weight(w: Withdrawal) -> int {
    w.amount.0 as int
}

/// [`withdrawal_weight`] as a function value.
pub open spec fn withdrawal_weight_fn() -> spec_fn(Withdrawal) -> int {
    |w: Withdrawal| withdrawal_weight(w)
}

/// The signed sum of the account's ledgers: every deposit not charged back
/// counts for its amount, every withdrawal counts against.
pub open spec fn ledger_total(a: AccountModel) -> int {
    sum_entries(a.deposits, deposit_weight_fn()) - sum_entries(
        a.withdrawals,
        withdrawal_weight_fn(),
    )
}

/// An account whose ledgers are finite and whose total funds equal the
/// signed sum of its ledgers.
pub open spec fn well_summed(a: AccountModel) -> bool {
    &&& a.deposits.dom().finite()
    &&& a.withdrawals.dom().finite()
    &&& a.available + a.held == ledger_total(a)
}

/// Every transaction keeps `available + held` equal to the signed sum of
/// the ledgers: a deposit and its amount enter together, a withdrawal and
/// its amount leave together, a dispute or resolve moves funds without
/// changing the total, and a chargeback removes the deposit's share
/// together with the held funds.
pub proof fn lemma_transact_preserves_ledger_sum(a: AccountModel, t: Transaction)
    requires
        well_summed(a),
    ensures
        well_summed(spec_transact(a, t).0),
{
    let transaction_id = t.transaction_id;
    match t.kind {
        crate::model::TransactionKind::Deposit { amount } => {
            let (post, _) = crate::transactors::spec_deposit(a, transaction_id, amount);
            if post != a {
                lemma_sum_insert_fresh(
                    a.deposits,
                    transaction_id,
                    Deposit { amount, status: crate::account::DepositStatus::Accepted },
                    deposit_weight_fn(),
                );
            }
        },
        crate::model::TransactionKind::Withdrawal { amount } => {
            let (post, _) = crate::transactors::spec_withdraw(a, transaction_id, amount);
            if post != a {
                lemma_sum_insert_fresh(
                    a.withdrawals,
                    transaction_id,
                    Withdrawal {
                        amount,
                        status: crate::account::WithdrawalStatus::Accepted,
                    },
                    withdrawal_weight_fn(),
                );
            }
        },
        crate::model::TransactionKind::Dispute => {
            let (post, _) = spec_dispute(a, transaction_id);
            if post != a {
                let deposit = a.deposits[transaction_id];
                lemma_sum_update(
                    a.deposits,
                    transaction_id,
                    Deposit {
                        amount: deposit.amount,
                        status: crate::account::DepositStatus::Held,
                    },
                    deposit_weight_fn(),
                );
            }
        },
        crate::model::TransactionKind::Resolve => {
            let (post, _) = spec_resolve(a, transaction_id);
            if post != a {
                let deposit = a.deposits[transaction_id];
                lemma_sum_update(
                    a.deposits,
                    transaction_id,
                    Deposit {
                        amount: deposit.amount,
                        status: crate::account::DepositStatus::Resolved,
                    },
                    deposit_weight_fn(),
                );
            }
        },
        crate::model::TransactionKind::ChargeBack => {
            let (post, _) = spec_chargeback(a, transaction_id);
            if post != a {
                let deposit = a.deposits[transaction_id];
                lemma_sum_update(
                    a.deposits,
                    transaction_id,
                    Deposit {
                        amount: deposit.amount,
                        status: crate::account::DepositStatus::ChargedBack,
                    },
                    deposit_weight_fn(),
                );
            }
        },
    }
}

/// The state an account reaches after a whole sequence of transactions,
/// applied in order; events that change nothing leave the state as it was.
pub open spec fn spec_apply_all(a: AccountModel, ts: Seq<Transaction>) -> AccountModel
    decreases ts.len(),
{
    if ts.len() == 0 {
        a
    } else {
        spec_transact(spec_apply_all(a, ts.drop_last()), ts.last()).0
    }
}

/// [`lemma_transact_preserves_ledger_sum`], extended over any sequence of
/// transactions.
pub proof fn lemma_apply_all_preserves_ledger_sum(a: AccountModel, ts: Seq<Transaction>)
    requires
        well_summed(a),
    ensures
        well_summed(spec_apply_all(a, ts)),
    decreases ts.len(),
{
    if ts.len() > 0 {
        lemma_apply_all_preserves_ledger_sum(a, ts.drop_last());
        lemma_transact_preserves_ledger_sum(spec_apply_all(a, ts.drop_last()), ts.last());
    }
}

/// For any sequence of events applied to an initially empty account, the
/// total funds `available + held` equal the signed sum of the ledgers:
/// `+amount` for every deposit that was not charged back, `-amount` for
/// every withdrawal; held and resolved deposits keep the total unchanged
/// relative to their accepted state.
pub proof fn lemma_total_equals_ledger_sum(client_id: ClientId, ts: Seq<Transaction>)
    ensures
        ({
            let a = spec_apply_all(AccountModel::empty(client_id), ts);
            a.available + a.held == ledger_total(a)
        }),
{
    let empty = AccountModel::empty(client_id);
    lemma_sum_empty(deposit_weight_fn());
    lemma_sum_empty(withdrawal_weight_fn());
    assert(well_summed(empty));
    lemma_apply_all_preserves_ledger_sum(empty, ts);
}

/// Applying the same event twice in immediate succession leaves the same
/// final account state as applying it once: the replay is either reported
/// as a duplicate or refused, and in both cases it changes nothing.
pub proof fn lemma_event_replay_idempotent(a: AccountModel, t: Transaction)
    ensures
        spec_transact(spec_transact(a, t).0, t).0 == spec_transact(a, t).0,
{
}

/// In a locked account, no transactor mutates the snapshot or any ledger
/// entry: every event either reports an idempotent duplicate or is refused,
/// and the account is left exactly as it was.
pub proof fn lemma_locked_account_never_mutates(a: AccountModel, t: Transaction)
    requires
        a.status is Locked,
    ensures
        spec_transact(a, t).0 == a,
{
}

/// Dispute then resolve on an accepted deposit returns the snapshot to
/// exactly its pre-dispute values; the deposit ends `Resolved`, and a
/// subsequent dispute of it is an idempotent no-op.
pub proof fn lemma_dispute_then_resolve_restores(a: AccountModel, transaction_id: TransactionId)
    requires
        a.deposits.contains_key(transaction_id),
        a.deposits[transaction_id].status is Accepted,
        !(a.status is Locked),
        fits_i64(a.available),
        fits_i64(a.held),
        fits_i64(a.available - a.deposits[transaction_id].amount.0),
        fits_i64(a.held + a.deposits[transaction_id].amount.0),
    ensures
        ({
            let a1 = spec_dispute(a, transaction_id).0;
            let a2 = spec_resolve(a1, transaction_id).0;
            &&& spec_dispute(a, transaction_id).1 == Ok::<SuccessStatus, DisputerError>(
                SuccessStatus::Transacted,
            )
            &&& spec_resolve(a1, transaction_id).1 == Ok::<SuccessStatus, ResolverError>(
                SuccessStatus::Transacted,
            )
            &&& a2.available == a.available
            &&& a2.held == a.held
            &&& a2.status == a.status
            &&& a2.deposits[transaction_id] == (Deposit {
                amount: a.deposits[transaction_id].amount,
                status: crate::account::DepositStatus::Resolved,
            })
            &&& spec_dispute(a2, transaction_id) == (
                a2,
                Ok::<SuccessStatus, DisputerError>(SuccessStatus::Duplicate),
            )
        }),
{
}

/// Selects the events addressed to one client.
pub open spec fn for_client(c: ClientId) -> spec_fn(Transaction) -> bool {
    |t: Transaction| t.client_id == c
}

/// Processing a stream moves each client's account exactly through that
/// client's own events, in stream order, starting from whatever the client
/// held before; events of other clients never touch it.
pub proof fn lemma_process_seq_per_client(
    m: Map<ClientId, AccountModel>,
    ts: Seq<Transaction>,
    c: ClientId,
)
    ensures
        client_state(spec_process_seq(m, ts), c) == spec_apply_all(
            client_state(m, c),
            ts.filter(for_client(c)),
        ),
    decreases ts.len(),
{
    if ts.len() > 0 {
        let prefix = ts.drop_last();
        let t = ts.last();
        lemma_process_seq_per_client(m, prefix, c);
        let m1 = spec_process_seq(m, prefix);
        let fs = prefix.filter(for_client(c));
        assert(ts.filter(for_client(c)) == if for_client(c)(t) {
            fs.push(t)
        } else {
            fs
        }) by {
            reveal_with_fuel(Seq::filter, 2);
            assert(ts.drop_last() == prefix);
        }
        if t.client_id == c {
            assert(for_client(c)(t));
            assert(ts.filter(for_client(c)) == fs.push(t));
            assert(fs.push(t).drop_last() =~= fs);
            assert(fs.push(t).last() == t);
        } else {
            assert(!for_client(c)(t));
            assert(ts.filter(for_client(c)) == fs);
            assert(client_state(spec_process_one(m1, t).0, c) == client_state(m1, c));
        }
    }
}

/// Per-client order: after a whole stream has been processed from scratch,
/// the account of each client is the fold, in stream order, of exactly
/// that client's events over a fresh account. Each of a client's events is
/// fully applied before the next one of that client starts.
pub proof fn lemma_per_client_order(ts: Seq<Transaction>, c: ClientId)
    ensures
        client_state(spec_process_seq(Map::empty(), ts), c) == spec_apply_all(
            AccountModel::empty(c),
            ts.filter(for_client(c)),
        ),
{
    lemma_process_seq_per_client(Map::empty(), ts, c);
}

/// A chargeback of a held deposit always locks the account and decreases
/// the held funds by exactly the disputed deposit's amount, leaving the
/// available funds alone.
pub proof fn lemma_chargeback_from_held_locks(a: AccountModel, transaction_id: TransactionId)
    requires
        a.deposits.contains_key(transaction_id),
        a.deposits[transaction_id].status is Held,
        !(a.status is Locked),
        fits_i64(a.held - a.deposits[transaction_id].amount.0),
    ensures
        ({
            let (post, r) = spec_chargeback(a, transaction_id);
            &&& r == Ok::<SuccessStatus, crate::transactors::BackchargerError>(
                SuccessStatus::Transacted,
            )
            &&& post.status is Locked
            &&& post.held == a.held - a.deposits[transaction_id].amount.0
            &&& post.available == a.available
            &&& post.deposits[transaction_id].status is ChargedBack
        }),
{
}

/// The transaction a row stands for, if the row deserializes and
/// converts.
pub open spec fn spec_row_transaction(row: Seq<u8>) -> Option<Transaction> {
    match spec_parse_record(row) {
        None => None,
        Some(r) => spec_to_transaction(r),
    }
}

/// [`spec_row_transaction`]'s value as a function, for rows known to
/// convert.
pub open spec fn row_transaction_fn() -> spec_fn(Seq<u8>) -> Transaction {
    |row: Seq<u8>| spec_row_transaction(row)->Some_0
}

/// Processing a sequence one event at a time, front first, reaches the
/// same accounts as the whole sequence at once.
pub proof fn lemma_process_seq_front(m: Map<ClientId, AccountModel>, ts: Seq<Transaction>)
    requires
        ts.len() > 0,
    ensures
        spec_process_seq(m, ts) == spec_process_seq(
            spec_process_one(m, ts[0]).0,
            ts.drop_first(),
        ),
    decreases ts.len(),
{
    reveal_with_fuel(spec_process_seq, 3);
    if ts.len() == 1 {
        assert(ts.drop_last() =~= Seq::<Transaction>::empty());
        assert(ts.drop_first() =~= Seq::<Transaction>::empty());
        assert(ts.last() == ts[0]);
    } else {
        let m1 = spec_process_one(m, ts[0]).0;
        lemma_process_seq_front(m, ts.drop_last());
        assert(ts.drop_last()[0] == ts[0]);
        assert(spec_process_seq(m, ts.drop_last()) == spec_process_seq(
            m1,
            ts.drop_last().drop_first(),
        ));
        assert(ts.drop_last().drop_first() =~= ts.drop_first().drop_last());
        assert(spec_process_seq(m, ts) == spec_process_one(
            spec_process_seq(m, ts.drop_last()),
            ts.last(),
        ).0);
        assert(ts.drop_first().len() > 0);
        assert(spec_process_seq(m1, ts.drop_first()) == spec_process_one(
            spec_process_seq(m1, ts.drop_first().drop_last()),
            ts.drop_first().last(),
        ).0);
        assert(ts.drop_first().last() == ts.last());
    }
}

/// A run that finishes cleanly has deserialized every row and applied the
/// resulting transactions, in order, to the accounts: the pipeline's final
/// state is the per-client fold of the whole stream.
pub proof fn lemma_completed_run_processes_every_row(
    m: Map<ClientId, AccountModel>,
    rows: Seq<Seq<u8>>,
)
    requires
        spec_run(m, rows).1 is Done,
    ensures
        forall|i: int| 0 <= i < rows.len() ==> spec_row_transaction(#[trigger] rows[i]) is Some,
        spec_run(m, rows).0 == spec_process_seq(m, rows.map_values(row_transaction_fn())),
    decreases rows.len(),
{
    let ts = rows.map_values(row_transaction_fn());
    if rows.len() == 0 {
        assert(ts =~= Seq::<Transaction>::empty());
        assert(spec_process_seq(m, ts) == m);
    } else {
        assert(spec_parse_record(rows[0]) is Some);
        let rec = spec_parse_record(rows[0])->Some_0;
        assert(spec_to_transaction(rec) is Some);
        let t = spec_to_transaction(rec)->Some_0;
        assert(spec_row_transaction(rows[0]) == Some(t));
        let (m1, r) = spec_process_one(m, t);
        assert(spec_run(m, rows) == spec_run(m1, rows.drop_first()));
        lemma_completed_run_processes_every_row(m1, rows.drop_first());
        assert(forall|i: int|
            0 <= i < rows.len() - 1 ==> #[trigger] rows.drop_first()[i] == rows[i + 1]);
        assert(forall|i: int|
            0 <= i < rows.len() ==> spec_row_transaction(#[trigger] rows[i]) is Some) by {
            assert(forall|i: int|
                1 <= i < rows.len() ==> spec_row_transaction(#[trigger] rows[i])
                    == spec_row_transaction(rows.drop_first()[i - 1]));
        }
        assert(ts.len() > 0);
        assert(ts[0] == t);
        assert(ts.drop_first() =~= rows.drop_first().map_values(row_transaction_fn()));
        lemma_process_seq_front(m, ts);
        assert(spec_run(m1, rows.drop_first()).0 == spec_process_seq(m1, ts.drop_first()));
    }
}

/// The capstone of the per-client ordering story: when a whole stream runs
/// to completion from empty accounts, each client ends with exactly the
/// fold, in stream order, of that client's own transactions.
pub proof fn lemma_completed_run_per_client(rows: Seq<Seq<u8>>, c: ClientId)
    requires
        spec_run(Map::empty(), rows).1 is Done,
    ensures
        client_state(spec_run(Map::empty(), rows).0, c) == spec_apply_all(
            AccountModel::empty(c),
            rows.map_values(row_transaction_fn()).filter(for_client(c)),
        ),
{
    lemma_completed_run_processes_every_row(Map::empty(), rows);
    lemma_per_client_order(rows.map_values(row_transaction_fn()), c);
}

} // verus!
