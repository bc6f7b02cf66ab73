//! The CSV front end: reads a byte stream shaped as CSV with the header
//! `type,client,tx,amount`, turns each row into a [`Transaction`], and
//! hands it to the transaction processor. Expected per-event refusals are
//! swallowed; inconsistencies and malformed input abort the stream.

use vstd::prelude::*;

use crate::account::AccountModel;
use crate::account_transactor::AccountTransactorError;
use crate::amount::{all_digits, digits_val, parse_amount_bytes, spec_parse_amount};
use crate::bytes::{eq_bytes, spec_split, split_bytes, trim, trim_slice};
use crate::model::{Amount4DecimalBased, ClientId, Transaction, TransactionId, TransactionKind};
use crate::transaction_processor::{
    spec_process_one, SimpleTransactionProcessor, TransactionProcessor, TransactionProcessorError,
};
use vstd::string::StringSliceAdditionalSpecFns;

verus! {

/// Everything that can end a stream early.
#[derive(Debug, PartialEq, Clone)]
pub enum TransactionStreamProcessError {
    /// The input was not CSV of the expected shape, or an amount did not
    /// parse.
    ParsingError(String),
    /// A transaction was refused in a way that means the issuer and the
    /// ledger disagree.
    ProcessError(TransactionProcessorError),
    /// The processor could not be wound down.
    FailedToShutdown(String),
    /// An internal failure outside the ledger's rules.
    InternalError(String),
}

/// The kinds of rows the input CSV may carry.
#[derive(Debug, PartialEq, Eq, Structural, Clone, Copy)]
pub enum TransactionRecordType {
    Deposit,
    Withdrawal,
    Dispute,
    Resolve,
    Chargeback,
}

/// One deserialized CSV row: the kind, the addressed client and
/// transaction, and the raw bytes of the amount column, if the column was
/// not empty.
#[derive(Debug, PartialEq, Clone)]
pub struct TransactionRecord {
    pub txn_type: TransactionRecordType,
    pub client_id: ClientId,
    pub transaction_id: TransactionId,
    pub optional_amount: Option<Vec<u8>>,
}

/// The mathematical value of a [`TransactionRecord`].
pub ghost struct TransactionRecordModel {
    pub txn_type: TransactionRecordType,
    pub client_id: ClientId,
    pub transaction_id: TransactionId,
    pub optional_amount: Option<Seq<u8>>,
}

impl View for TransactionRecord {
    type V = TransactionRecordModel;

    open spec fn view(&self) -> TransactionRecordModel {
        TransactionRecordModel {
            txn_type: self.txn_type,
            client_id: self.client_id,
            transaction_id: self.transaction_id,
            optional_amount: match self.optional_amount {
                Some(v) => Some(v@),
                None => None,
            },
        }
    }
}

/// Which record type a row's first column names.
pub open spec fn spec_record_type(ty: Seq<u8>) -> Option<TransactionRecordType> {
    if ty == "deposit".spec_bytes() {
        Some(TransactionRecordType::Deposit)
    } else if ty == "withdrawal".spec_bytes() {
        Some(TransactionRecordType::Withdrawal)
    } else if ty == "dispute".spec_bytes() {
        Some(TransactionRecordType::Dispute)
    } else if ty == "resolve".spec_bytes() {
        Some(TransactionRecordType::Resolve)
    } else if ty == "chargeback".spec_bytes() {
        Some(TransactionRecordType::Chargeback)
    } else {
        None
    }
}

/// Whether a digit run is a well-formed id no larger than `max`.
pub open spec fn spec_id_ok(s: Seq<u8>, max: int) -> bool {
    &&& s.len() >= 1
    &&& all_digits(s)
    &&& digits_val(s) <= max
}

/// What deserializing one data row yields: exactly four comma-separated
/// columns, each trimmed of blanks; a known type name; a client id and a
/// transaction id in range; and the amount column kept as bytes, absent
/// if empty.
pub open spec fn spec_parse_record(row: Seq<u8>) -> Option<TransactionRecordModel> {
    let fields = spec_split(row, 44);
    if fields.len() != 4 {
        None
    } else {
        let ty = trim(fields[0]);
        let cl = trim(fields[1]);
        let tx = trim(fields[2]);
        let am = trim(fields[3]);
        match spec_record_type(ty) {
            None => None,
            Some(txn_type) => {
                if !spec_id_ok(cl, u16::MAX as int) {
                    None
                } else if !spec_id_ok(tx, u32::MAX as int) {
                    None
                } else {
                    Some(
                        TransactionRecordModel {
                            txn_type,
                            client_id: digits_val(cl) as u16,
                            transaction_id: digits_val(tx) as u32,
                            optional_amount: if am.len() == 0 {
                                None
                            } else {
                                Some(am)
                            },
                        },
                    )
                }
            },
        }
    }
}

/// What converting a record into a transaction yields: deposits and
/// withdrawals need an amount that parses; the lifecycle events carry
/// none.
pub open spec fn spec_to_transaction(r: TransactionRecordModel) -> Option<Transaction> {
    match r.txn_type {
        TransactionRecordType::Deposit => match r.optional_amount {
            Some(bytes) => match spec_parse_amount(bytes) {
                Some(v) => Some(
                    Transaction {
                        client_id: r.client_id,
                        transaction_id: r.transaction_id,
                        kind: TransactionKind::Deposit { amount: Amount4DecimalBased(v as i64) },
                    },
                ),
                None => None,
            },
            None => None,
        },
        TransactionRecordType::Withdrawal => match r.optional_amount {
            Some(bytes) => match spec_parse_amount(bytes) {
                Some(v) => Some(
                    Transaction {
                        client_id: r.client_id,
                        transaction_id: r.transaction_id,
                        kind: TransactionKind::Withdrawal {
                            amount: Amount4DecimalBased(v as i64),
                        },
                    },
                ),
                None => None,
            },
            None => None,
        },
        TransactionRecordType::Dispute => Some(
            Transaction {
                client_id: r.client_id,
                transaction_id: r.transaction_id,
                kind: TransactionKind::Dispute,
            },
        ),
        TransactionRecordType::Resolve => Some(
            Transaction {
                client_id: r.client_id,
                transaction_id: r.transaction_id,
                kind: TransactionKind::Resolve,
            },
        ),
        TransactionRecordType::Chargeback => Some(
            Transaction {
                client_id: r.client_id,
                transaction_id: r.transaction_id,
                kind: TransactionKind::ChargeBack,
            },
        ),
    }
}

/// Reads one data row, exactly as [`spec_parse_record`] says.
pub fn parse_record(row: &[u8]) -> (result: Option<TransactionRecord>)
    ensures
        match result {
            Some(r) => spec_parse_record(row@) == Some(r@),
            None => spec_parse_record(row@) == None::<TransactionRecordModel>,
        },
{
    let fields = split_bytes(row, 44);
    proof {
        assert(fields.deep_view().len() == fields@.len());
    }
    if fields.len() != 4 {
        return None;
    }
    proof {
        assert(fields.deep_view()[0] == fields@[0]@);
        assert(fields.deep_view()[1] == fields@[1]@);
        assert(fields.deep_view()[2] == fields@[2]@);
        assert(fields.deep_view()[3] == fields@[3]@);
    }
    let ty = trim_slice(fields[0].as_slice());
    let cl = trim_slice(fields[1].as_slice());
    let tx = trim_slice(fields[2].as_slice());
    let am = trim_slice(fields[3].as_slice());
    let txn_type = if eq_bytes(ty, "deposit".as_bytes()) {
        TransactionRecordType::Deposit
    } else if eq_bytes(ty, "withdrawal".as_bytes()) {
        TransactionRecordType::Withdrawal
    } else if eq_bytes(ty, "dispute".as_bytes()) {
        TransactionRecordType::Dispute
    } else if eq_bytes(ty, "resolve".as_bytes()) {
        TransactionRecordType::Resolve
    } else if eq_bytes(ty, "chargeback".as_bytes()) {
        TransactionRecordType::Chargeback
    } else {
        return None;
    };
    let client_id = match crate::amount::parse_digits_capped(cl, u16::MAX as u64) {
        Some(v) => v as u16,
        None => {
            return None;
        },
    };
    let transaction_id = match crate::amount::parse_digits_capped(tx, u32::MAX as u64) {
        Some(v) => v as u32,
        None => {
            return None;
        },
    };
    let optional_amount = if am.len() == 0 {
        None
    } else {
        Some(vstd::slice::slice_to_vec(am))
    };
    Some(TransactionRecord { txn_type, client_id, transaction_id, optional_amount })
}

/// Converts one record, exactly as [`spec_to_transaction`] says; a record
/// it refuses is a parsing failure that aborts the stream.
pub fn to_transaction(record: TransactionRecord) -> (result: Result<
    Transaction,
    TransactionStreamProcessError,
>)
    ensures
        match result {
            Ok(t) => spec_to_transaction(record@) == Some(t),
            Err(e) => spec_to_transaction(record@) == None::<Transaction> && e
                is ParsingError,
        },
{
    let TransactionRecord { txn_type, client_id, transaction_id, optional_amount } = record;
    match txn_type {
        TransactionRecordType::Deposit => match optional_amount {
            Some(bytes) => match parse_amount_bytes(bytes.as_slice()) {
                Ok(v) => Ok(
                    Transaction {
                        client_id,
                        transaction_id,
                        kind: TransactionKind::Deposit { amount: Amount4DecimalBased(v) },
                    },
                ),
                Err(_) => Err(
                    TransactionStreamProcessError::ParsingError(
                        "The amount for a deposit does not parse.".to_owned(),
                    ),
                ),
            },
            None => Err(
                TransactionStreamProcessError::ParsingError(
                    "Amount not found for deposit.".to_owned(),
                ),
            ),
        },
        TransactionRecordType::Withdrawal => match optional_amount {
            Some(bytes) => match parse_amount_bytes(bytes.as_slice()) {
                Ok(v) => Ok(
                    Transaction {
                        client_id,
                        transaction_id,
                        kind: TransactionKind::Withdrawal { amount: Amount4DecimalBased(v) },
                    },
                ),
                Err(_) => Err(
                    TransactionStreamProcessError::ParsingError(
                        "The amount for a withdrawal does not parse.".to_owned(),
                    ),
                ),
            },
            None => Err(
                TransactionStreamProcessError::ParsingError(
                    "Amount not found for withdrawal.".to_owned(),
                ),
            ),
        },
        TransactionRecordType::Dispute => Ok(
            Transaction { client_id, transaction_id, kind: TransactionKind::Dispute },
        ),
        TransactionRecordType::Resolve => Ok(
            Transaction { client_id, transaction_id, kind: TransactionKind::Resolve },
        ),
        TransactionRecordType::Chargeback => Ok(
            Transaction { client_id, transaction_id, kind: TransactionKind::ChargeBack },
        ),
    }
}

/// The account-level refusal inside a processor error.
pub open spec fn account_error_of(e: TransactionProcessorError) -> AccountTransactorError {
    match e {
        TransactionProcessorError::AccountTransactionError(_, ae) => ae,
    }
}

/// Which refusals are inconsistencies that must surface, as opposed to
/// expected ledger outcomes that the stream silently skips.
pub open spec fn spec_is_fatal(e: AccountTransactorError) -> bool {
    match e {
        AccountTransactorError::InsufficientFundForWithdrawal => false,
        AccountTransactorError::NoTransactionFound => false,
        AccountTransactorError::TransactionNotFound(_, _) => false,
        _ => true,
    }
}

/// The default error handler: swallows insufficient funds and unknown
/// transaction ids, which are normal ledger outcomes, and surfaces
/// everything else.
pub struct SimpleErrorHandler;

impl SimpleErrorHandler {
    /// Decides one refusal, exactly as [`spec_is_fatal`] says.
    pub fn handle(&self, transaction_processor_error: TransactionProcessorError) -> (result:
        Result<(), TransactionProcessorError>)
        ensures
            result == if spec_is_fatal(account_error_of(transaction_processor_error)) {
                Err::<(), TransactionProcessorError>(transaction_processor_error)
            } else {
                Ok::<(), TransactionProcessorError>(())
            },
    {
        let TransactionProcessorError::AccountTransactionError(_, e) =
            transaction_processor_error;
        match e {
            AccountTransactorError::InsufficientFundForWithdrawal => Ok(()),
            AccountTransactorError::NoTransactionFound => Ok(()),
            AccountTransactorError::TransactionNotFound(_, _) => Ok(()),
            _ => Err(transaction_processor_error),
        }
    }
}

/// How a run over the data rows can end.
pub ghost enum RunOutcome {
    /// Every row was applied (expected refusals included).
    Done,
    /// A row was not CSV of the expected shape.
    BadRow,
    /// A row deserialized but could not become a transaction.
    BadRecord,
    /// A transaction was refused in a way that aborts the stream.
    Fatal(TransactionProcessorError),
}

/// What running the data rows against the accounts does: rows are applied
/// in order; the run stops at the first malformed row, the first record
/// that is no transaction, or the first fatal refusal, and the accounts
/// keep everything applied before the stop.
pub open spec fn spec_run(
    accounts: Map<ClientId, AccountModel>,
    rows: Seq<Seq<u8>>,
) -> (Map<ClientId, AccountModel>, RunOutcome)
    decreases rows.len(),
{
    if rows.len() == 0 {
        (accounts, RunOutcome::Done)
    } else {
        match spec_parse_record(rows[0]) {
            None => (accounts, RunOutcome::BadRow),
            Some(rec) => match spec_to_transaction(rec) {
                None => (accounts, RunOutcome::BadRecord),
                Some(t) => {
                    let (m, r) = spec_process_one(accounts, t);
                    match r {
                        Ok(_) => spec_run(m, rows.drop_first()),
                        Err(e) => {
                            if spec_is_fatal(account_error_of(e)) {
                                (m, RunOutcome::Fatal(e))
                            } else {
                                spec_run(m, rows.drop_first())
                            }
                        },
                    }
                },
            },
        }
    }
}

/// [`trim`] as a function value.
pub open spec fn trim_fn() -> spec_fn(Seq<u8>) -> Seq<u8> {
    |l: Seq<u8>| trim(l)
}

/// Keeps the rows that still hold anything after trimming.
pub open spec fn nonblank_fn() -> spec_fn(Seq<u8>) -> bool {
    |l: Seq<u8>| l.len() > 0
}

/// The rows of the input: the byte stream split at line feeds, every line
/// trimmed of blanks (carriage returns included), blank lines dropped.
pub open spec fn spec_csv_rows(input: Seq<u8>) -> Seq<Seq<u8>> {
    spec_split(input, 10).map_values(trim_fn()).filter(nonblank_fn())
}

/// Whether the first row is the required header `type,client,tx,amount`.
pub open spec fn spec_header_ok(row: Seq<u8>) -> bool {
    let fields = spec_split(row, 44);
    &&& fields.len() == 4
    &&& trim(fields[0]) == "type".spec_bytes()
    &&& trim(fields[1]) == "client".spec_bytes()
    &&& trim(fields[2]) == "tx".spec_bytes()
    &&& trim(fields[3]) == "amount".spec_bytes()
}

/// Checks the header row, exactly as [`spec_header_ok`] says.
fn header_ok(row: &[u8]) -> (result: bool)
    ensures
        result == spec_header_ok(row@),
{
    let fields = split_bytes(row, 44);
    proof {
        assert(fields.deep_view().len() == fields@.len());
    }
    if fields.len() != 4 {
        return false;
    }
    proof {
        assert(fields.deep_view()[0] == fields@[0]@);
        assert(fields.deep_view()[1] == fields@[1]@);
        assert(fields.deep_view()[2] == fields@[2]@);
        assert(fields.deep_view()[3] == fields@[3]@);
    }
    eq_bytes(trim_slice(fields[0].as_slice()), "type".as_bytes()) && eq_bytes(
        trim_slice(fields[1].as_slice()),
        "client".as_bytes(),
    ) && eq_bytes(trim_slice(fields[2].as_slice()), "tx".as_bytes()) && eq_bytes(
        trim_slice(fields[3].as_slice()),
        "amount".as_bytes(),
    )
}

/// Splits the input into its non-blank trimmed rows, exactly as
/// [`spec_csv_rows`] says.
fn csv_rows(input: &[u8]) -> (rows: Vec<Vec<u8>>)
    ensures
        rows.deep_view() == spec_csv_rows(input@),
{
    let lines = split_bytes(input, 10);
    let mut rows: Vec<Vec<u8>> = Vec::new();
    let mut i: usize = 0;
    proof {
        assert(lines.deep_view().subrange(0, 0).map_values(trim_fn()).filter(nonblank_fn())
            =~~= rows.deep_view());
    }
    while i < lines.len()
        invariant
            0 <= i <= lines@.len(),
            lines@.len() == lines.deep_view().len(),
            rows.deep_view() =~~= lines.deep_view().subrange(0, i as int).map_values(
                trim_fn(),
            ).filter(nonblank_fn()),
        decreases lines@.len() - i,
    {
        let ghost prefix = lines.deep_view().subrange(0, i as int);
        let ghost line = lines.deep_view()[i as int];
        proof {
            assert(lines.deep_view()[i as int] == lines@[i as int]@);
            assert(lines.deep_view().subrange(0, i + 1) =~= prefix.push(line));
            assert(prefix.push(line).map_values(trim_fn()) =~= prefix.map_values(
                trim_fn(),
            ).push(trim_fn()(line)));
            assert(prefix.push(line).map_values(trim_fn()).drop_last() =~= prefix.map_values(
                trim_fn(),
            ));
            let mapped_next = prefix.push(line).map_values(trim_fn());
            let mapped_prefix = prefix.map_values(trim_fn());
            let single = seq![trim(line)];
            assert(mapped_next =~= mapped_prefix + single);
            Seq::filter_distributes_over_add(mapped_prefix, single, nonblank_fn());
            assert(single.drop_last() =~= Seq::<Seq<u8>>::empty());
            assert(Seq::<Seq<u8>>::empty().filter(nonblank_fn()) == Seq::<Seq<u8>>::empty());
            assert(single.filter(nonblank_fn()) =~= if nonblank_fn()(trim(line)) {
                single
            } else {
                Seq::<Seq<u8>>::empty()
            }) by {
                reveal_with_fuel(Seq::filter, 3);
            }
            assert(mapped_next.filter(nonblank_fn()) == if nonblank_fn()(trim(line)) {
                mapped_prefix.filter(nonblank_fn()) + single
            } else {
                mapped_prefix.filter(nonblank_fn()) + Seq::<Seq<u8>>::empty()
            });
            assert(mapped_prefix.filter(nonblank_fn()) + single =~= mapped_prefix.filter(
                nonblank_fn(),
            ).push(trim(line)));
            assert(mapped_prefix.filter(nonblank_fn()) + Seq::<Seq<u8>>::empty()
                =~= mapped_prefix.filter(nonblank_fn()));
        }
        let trimmed = trim_slice(lines[i].as_slice());
        if trimmed.len() > 0 {
            let piece = vstd::slice::slice_to_vec(trimmed);
            let ghost pre_deep = rows.deep_view();
            rows.push(piece);
            proof {
                assert(rows.deep_view() =~~= pre_deep.push(trim(line)));
            }
        }
        i = i + 1;
    }
    proof {
        assert(lines.deep_view().subrange(0, lines.deep_view().len() as int)
            =~= lines.deep_view());
    }
    rows
}

/// The CSV stream processor: parses rows and feeds them, in input order,
/// to the transaction processor it owns.
pub struct CsvStreamProcessor {
    consumer: SimpleTransactionProcessor,
    error_handler: SimpleErrorHandler,
}

impl CsvStreamProcessor {
    /// The accounts built by everything processed so far.
    pub closed spec fn accounts_model(&self) -> Map<ClientId, AccountModel> {
        self.consumer.accounts_model()
    }

    /// Wraps a transaction processor.
    pub fn new(consumer: SimpleTransactionProcessor) -> (processor: CsvStreamProcessor)
        ensures
            processor.accounts_model() == consumer.accounts_model(),
    {
        CsvStreamProcessor { consumer, error_handler: SimpleErrorHandler }
    }

    /// Hands the finished accounts over for the summary.
    pub fn into_consumer(self) -> (consumer: SimpleTransactionProcessor)
        ensures
            consumer.accounts_model() == self.accounts_model(),
    {
        self.consumer
    }

    /// Processes a whole byte stream: the header row is required, then
    /// every data row is applied in order, exactly as [`spec_run`] says;
    /// the first malformed row or fatal refusal aborts the stream, and
    /// everything applied before it stays applied.
    pub fn process(&mut self, input: &[u8]) -> (result: Result<
        (),
        TransactionStreamProcessError,
    >)
        ensures
            ({
                let rows = spec_csv_rows(input@);
                if rows.len() == 0 {
                    &&& final(self).accounts_model() == old(self).accounts_model()
                    &&& result == Ok::<(), TransactionStreamProcessError>(())
                } else if !spec_header_ok(rows[0]) {
                    &&& final(self).accounts_model() == old(self).accounts_model()
                    &&& result matches Err(TransactionStreamProcessError::ParsingError(_))
                } else {
                    let (m, outcome) = spec_run(old(self).accounts_model(), rows.drop_first());
                    &&& final(self).accounts_model() == m
                    &&& match outcome {
                        RunOutcome::Done => result == Ok::<(), TransactionStreamProcessError>(
                            (),
                        ),
                        RunOutcome::BadRow => result matches Err(
                            TransactionStreamProcessError::ParsingError(_),
                        ),
                        RunOutcome::BadRecord => result matches Err(
                            TransactionStreamProcessError::ParsingError(_),
                        ),
                        RunOutcome::Fatal(e) => result == Err::<
                            (),
                            TransactionStreamProcessError,
                        >(TransactionStreamProcessError::ProcessError(e)),
                    }
                }
            }),
    {
        let rows = csv_rows(input);
        if rows.len() == 0 {
            return Ok(());
        }
        proof {
            assert(rows.deep_view()[0] == rows@[0]@);
        }
        if !header_ok(rows[0].as_slice()) {
            return Err(
                TransactionStreamProcessError::ParsingError(
                    "The header row must be `type,client,tx,amount`.".to_owned(),
                ),
            );
        }
        let ghost data = rows.deep_view().drop_first();
        let ghost model0 = self.accounts_model();
        let mut k: usize = 1;
        proof {
            assert(data.subrange(0, data.len() as int) =~= data);
        }
        while k < rows.len()
            invariant
                1 <= k <= rows@.len(),
                rows@.len() == rows.deep_view().len(),
                rows.deep_view() == spec_csv_rows(input@),
                rows@.len() > 0,
                spec_header_ok(rows.deep_view()[0]),
                data == rows.deep_view().drop_first(),
                model0 == old(self).accounts_model(),
                spec_run(model0, data) == spec_run(
                    self.accounts_model(),
                    data.subrange(k - 1, data.len() as int),
                ),
            decreases rows@.len() - k,
        {
            let ghost remaining = data.subrange(k - 1, data.len() as int);
            proof {
                assert(rows.deep_view()[k as int] == rows@[k as int]@);
                assert(remaining[0] == data[k - 1]);
                assert(data[k - 1] == rows.deep_view()[k as int]);
                assert(remaining.drop_first() =~= data.subrange(k as int, data.len() as int));
            }
            let record = match parse_record(rows[k].as_slice()) {
                Some(record) => record,
                None => {
                    proof {
                        assert(spec_run(self.accounts_model(), remaining) == (
                            self.accounts_model(),
                            RunOutcome::BadRow,
                        ));
                    }
                    return Err(
                        TransactionStreamProcessError::ParsingError(
                            "A row is not CSV of the expected shape.".to_owned(),
                        ),
                    );
                },
            };
            let transaction = match to_transaction(record) {
                Ok(transaction) => transaction,
                Err(e) => {
                    proof {
                        assert(spec_run(self.accounts_model(), remaining) == (
                            self.accounts_model(),
                            RunOutcome::BadRecord,
                        ));
                    }
                    return Err(e);
                },
            };
            match self.consumer.process(transaction) {
                Ok(_) => {},
                Err(process_error) => {
                    match self.error_handler.handle(process_error) {
                        Ok(_) => {},
                        Err(fatal) => {
                            return Err(TransactionStreamProcessError::ProcessError(fatal));
                        },
                    }
                },
            }
            k = k + 1;
        }
        proof {
            assert(data.subrange(rows.deep_view().len() - 1, data.len() as int)
                =~= Seq::<Seq<u8>>::empty());
        }
        Ok(())
    }
}

} // verus!
