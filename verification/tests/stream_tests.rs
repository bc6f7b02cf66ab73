use std::collections::HashMap;

use jouet_paiement::account::{
    Account, AccountSnapshot, AccountStatus, Deposit, DepositStatus, Withdrawal,
};
use jouet_paiement::account_summary::{AccountSummary, AccountSummaryCsvWriter};
use jouet_paiement::account_transactor::AccountTransactorError;
use jouet_paiement::model::{
    Amount4DecimalBased, ClientId, Transaction, TransactionId, TransactionKind,
};
use jouet_paiement::transaction_processor::{
    SimpleTransactionProcessor, TransactionProcessorError,
};
use jouet_paiement::transaction_stream_processor::{
    parse_record, to_transaction, CsvStreamProcessor, SimpleErrorHandler, TransactionRecord,
    TransactionRecordType, TransactionStreamProcessError,
};

fn processor() -> CsvStreamProcessor {
    CsvStreamProcessor::new(SimpleTransactionProcessor::new())
}

fn summary_of(processor: CsvStreamProcessor) -> String {
    let accounts = processor.into_consumer().into_accounts();
    let mut summaries: Vec<AccountSummary> =
        accounts.values().map(AccountSummary::from_account).collect();
    summaries.sort_by_key(|s| s.client_id);
    String::from_utf8(AccountSummaryCsvWriter::write(summaries).unwrap()).unwrap()
}

fn accounts_of(processor: CsvStreamProcessor) -> HashMap<ClientId, Account> {
    processor.into_consumer().into_accounts()
}

fn active_account(
    client_id: ClientId,
    available: i64,
    held: i64,
    deposits: Vec<(TransactionId, Deposit)>,
) -> Account {
    Account::new(
        client_id,
        AccountStatus::Active,
        AccountSnapshot::new(available, held),
        deposits.into_iter().collect::<HashMap<_, _>>(),
        HashMap::<TransactionId, Withdrawal>::new(),
    )
}

fn accepted_deposit(v: i64) -> Deposit {
    Deposit { amount: Amount4DecimalBased(v), status: DepositStatus::Accepted }
}

// Row parsing and conversion.

#[test]
fn rows_parse_into_the_expected_transactions() {
    let cases: Vec<(&str, Transaction)> = vec![
        (
            "deposit, 1, 2, 3.0",
            Transaction {
                client_id: 1,
                transaction_id: 2,
                kind: TransactionKind::Deposit { amount: Amount4DecimalBased(30_000) },
            },
        ),
        (
            "withdrawal, 4, 5, 6.0",
            Transaction {
                client_id: 4,
                transaction_id: 5,
                kind: TransactionKind::Withdrawal { amount: Amount4DecimalBased(60_000) },
            },
        ),
        (
            "dispute, 7, 8,",
            Transaction { client_id: 7, transaction_id: 8, kind: TransactionKind::Dispute },
        ),
        (
            "resolve, 9, 10,",
            Transaction { client_id: 9, transaction_id: 10, kind: TransactionKind::Resolve },
        ),
        (
            "chargeback, 11, 12,",
            Transaction {
                client_id: 11,
                transaction_id: 12,
                kind: TransactionKind::ChargeBack,
            },
        ),
    ];
    for (row, expected) in cases {
        let record = parse_record(row.as_bytes()).unwrap();
        assert_eq!(to_transaction(record).unwrap(), expected);
    }
}

#[test]
fn conversion_from_transaction_record_to_transaction_works() {
    let record = TransactionRecord {
        txn_type: TransactionRecordType::Deposit,
        client_id: 1234,
        transaction_id: 5678,
        optional_amount: Some(b"0.9".to_vec()),
    };
    assert_eq!(
        to_transaction(record).unwrap(),
        Transaction {
            client_id: 1234,
            transaction_id: 5678,
            kind: TransactionKind::Deposit { amount: Amount4DecimalBased(9_000) },
        }
    );
}

#[test]
fn a_deposit_without_an_amount_is_a_parsing_error() {
    let record = TransactionRecord {
        txn_type: TransactionRecordType::Deposit,
        client_id: 1,
        transaction_id: 2,
        optional_amount: None,
    };
    assert!(matches!(
        to_transaction(record),
        Err(TransactionStreamProcessError::ParsingError(_))
    ));
}

#[test]
fn a_row_with_a_missing_column_does_not_parse() {
    assert!(parse_record("dispute, 7, 8".as_bytes()).is_none());
    assert!(parse_record("deposit, 1, 2, 3.0, extra".as_bytes()).is_none());
    assert!(parse_record("teleport, 1, 2, 3.0".as_bytes()).is_none());
    assert!(parse_record("deposit, 65536, 2, 3.0".as_bytes()).is_none());
    assert!(parse_record("deposit, one, 2, 3.0".as_bytes()).is_none());
}

#[test]
fn missing_coma_for_the_optional_field_results_in_parsing_error() {
    let input = "
    type,    client, tx, amount
    dispute,      7,  8";
    let mut processor = processor();
    assert!(matches!(
        processor.process(input.as_bytes()),
        Err(TransactionStreamProcessError::ParsingError(_))
    ));
}

#[test]
fn a_wrong_header_is_a_parsing_error() {
    let input = "kind,client,tx,amount\ndeposit,1,1,1.0";
    let mut processor = processor();
    assert!(matches!(
        processor.process(input.as_bytes()),
        Err(TransactionStreamProcessError::ParsingError(_))
    ));
}

#[test]
fn an_unparseable_amount_aborts_the_stream() {
    let input = "type,client,tx,amount\ndeposit,1,1,1.23456";
    let mut processor = processor();
    assert!(matches!(
        processor.process(input.as_bytes()),
        Err(TransactionStreamProcessError::ParsingError(_))
    ));
}

// The error handler.

#[test]
fn simple_error_handler_works() {
    let handler = SimpleErrorHandler;
    let transaction = Transaction {
        client_id: 123,
        transaction_id: 456,
        kind: TransactionKind::Deposit { amount: Amount4DecimalBased(1) },
    };
    let wrap = |e: AccountTransactorError| {
        TransactionProcessorError::AccountTransactionError(transaction.clone(), e)
    };
    // Inconsistencies surface.
    for fatal in [
        AccountTransactorError::CannotDepositToLockedAccount,
        AccountTransactorError::CannotWithdrawFromLockedAccount,
        AccountTransactorError::CannotDisputeAgainstLockedAccount,
        AccountTransactorError::CannotResolveLockedAccount,
        AccountTransactorError::CannotChargebackLockedAccount,
        AccountTransactorError::CannotResolveNonDisputedTransaction(0),
        AccountTransactorError::CannotChargebackNonDisputedTransaction(0),
        AccountTransactorError::ConflictingWithPreviousTransaction(0),
        AccountTransactorError::IncompatibleTransaction(0),
    ] {
        assert_eq!(handler.handle(wrap(fatal)), Err(wrap(fatal)));
    }
    // Expected ledger outcomes are swallowed.
    for benign in [
        AccountTransactorError::InsufficientFundForWithdrawal,
        AccountTransactorError::NoTransactionFound,
    ] {
        assert_eq!(handler.handle(wrap(benign)), Ok(()));
    }
}

// End-to-end scenarios.

#[test]
fn two_clients_with_deposits_only() {
    let input = "
       type, client, tx, amount
    deposit,      1, 10,    4.0
    deposit,      1, 20,    5.0
    deposit,      2, 30,    6.0";
    let mut processor = processor();
    processor.process(input.as_bytes()).unwrap();
    assert_eq!(
        summary_of(processor),
        "client,available,held,total,locked\n\
         1,9.0000,0.0000,9.0000,false\n\
         2,6.0000,0.0000,6.0000,false\n"
    );
}

#[test]
fn e2_account_storage_with_small_input() {
    let input = "
       type, client, tx, amount
    deposit,      1, 10,    4.0
    deposit,      1, 20,    5.0
    deposit,      2, 30,    6.0";
    let mut processor = processor();
    processor.process(input.as_bytes()).unwrap();
    let accounts = accounts_of(processor);
    assert_eq!(accounts.len(), 2);
    assert_eq!(
        accounts[&1],
        active_account(1, 90_000, 0, vec![(10, accepted_deposit(40_000)), (20, accepted_deposit(50_000))])
    );
    assert_eq!(accounts[&2], active_account(2, 60_000, 0, vec![(30, accepted_deposit(60_000))]));
}

#[test]
fn a_withdrawal_with_insufficient_funds_is_dropped() {
    let input = "type,client,tx,amount\ndeposit,1,1,3.0\nwithdrawal,1,2,5.0";
    let mut processor = processor();
    processor.process(input.as_bytes()).unwrap();
    assert_eq!(
        summary_of(processor),
        "client,available,held,total,locked\n1,3.0000,0.0000,3.0000,false\n"
    );
}

#[test]
fn dispute_then_resolve_frees_the_funds() {
    let input = "type,client,tx,amount\ndeposit,1,1,10.0\ndispute,1,1,\nresolve,1,1,";
    let mut processor = processor();
    processor.process(input.as_bytes()).unwrap();
    let accounts = accounts_of(processor);
    assert_eq!(
        accounts[&1],
        active_account(
            1,
            100_000,
            0,
            vec![(1, Deposit { amount: Amount4DecimalBased(100_000), status: DepositStatus::Resolved })],
        )
    );
}

#[test]
fn dispute_then_chargeback_locks_the_account() {
    let input = "type,client,tx,amount\n\
                 deposit,1,1,10.0\n\
                 deposit,1,2,5.0\n\
                 dispute,1,1,\n\
                 chargeback,1,1,";
    let mut processor = processor();
    processor.process(input.as_bytes()).unwrap();
    assert_eq!(
        summary_of(processor),
        "client,available,held,total,locked\n1,5.0000,0.0000,5.0000,true\n"
    );

    // A subsequent deposit is rejected and leaves the state unchanged.
    let input_with_late_deposit = "type,client,tx,amount\n\
                 deposit,1,1,10.0\n\
                 deposit,1,2,5.0\n\
                 dispute,1,1,\n\
                 chargeback,1,1,\n\
                 deposit,1,3,1.0";
    let mut second = self::processor();
    let result = second.process(input_with_late_deposit.as_bytes());
    assert_eq!(
        result,
        Err(TransactionStreamProcessError::ProcessError(
            TransactionProcessorError::AccountTransactionError(
                Transaction {
                    client_id: 1,
                    transaction_id: 3,
                    kind: TransactionKind::Deposit { amount: Amount4DecimalBased(10_000) },
                },
                AccountTransactorError::CannotDepositToLockedAccount,
            )
        ))
    );
    assert_eq!(
        summary_of(second),
        "client,available,held,total,locked\n1,5.0000,0.0000,5.0000,true\n"
    );
}

#[test]
fn resolve_on_a_non_disputed_deposit_is_an_incompatibility() {
    let input = "type,client,tx,amount\ndeposit,1,1,3.0\nresolve,1,1,";
    let mut processor = processor();
    let result = processor.process(input.as_bytes());
    assert_eq!(
        result,
        Err(TransactionStreamProcessError::ProcessError(
            TransactionProcessorError::AccountTransactionError(
                Transaction { client_id: 1, transaction_id: 1, kind: TransactionKind::Resolve },
                AccountTransactorError::CannotResolveNonDisputedTransaction(1),
            )
        ))
    );
    assert_eq!(
        summary_of(processor),
        "client,available,held,total,locked\n1,3.0000,0.0000,3.0000,false\n"
    );
}

#[test]
fn per_client_order_under_interleaving() {
    // Ten clients, ten deposits each, interleaved round-robin: every
    // client ends with exactly the sum of its own deposits.
    let mut input = String::from("type,client,tx,amount\n");
    let mut transaction_id: u32 = 1;
    for _round in 0..10 {
        for client in 1..=10u16 {
            input.push_str(&format!("deposit,{client},{transaction_id},1.0\n"));
            transaction_id += 1;
        }
    }
    let mut processor = processor();
    processor.process(input.as_bytes()).unwrap();
    let accounts = accounts_of(processor);
    assert_eq!(accounts.len(), 10);
    for client in 1..=10u16 {
        let account = &accounts[&client];
        let summary = AccountSummary::from_account(account);
        assert_eq!(summary.available, "10.0000");
        assert_eq!(summary.held, "0.0000");
        assert!(!summary.locked);
    }
}

#[test]
fn an_empty_input_is_accepted() {
    let mut processor = processor();
    processor.process("".as_bytes()).unwrap();
    assert_eq!(summary_of(processor), "client,available,held,total,locked\n");
}

#[test]
fn carriage_returns_and_blank_lines_are_tolerated() {
    let input = "type,client,tx,amount\r\n\r\ndeposit,1,1,2.5\r\n\r\nwithdrawal,1,2,1.0\r\n";
    let mut processor = processor();
    processor.process(input.as_bytes()).unwrap();
    assert_eq!(
        summary_of(processor),
        "client,available,held,total,locked\n1,1.5000,0.0000,1.5000,false\n"
    );
}

#[test]
fn a_header_alone_produces_an_empty_report() {
    let input = "type,client,tx,amount\n";
    let mut processor = processor();
    processor.process(input.as_bytes()).unwrap();
    assert_eq!(summary_of(processor), "client,available,held,total,locked\n");
}

#[test]
fn rows_after_a_fatal_refusal_are_not_applied() {
    // The sequential stream stops at the first fatal refusal; the state
    // keeps everything applied before it and nothing after it.
    let input = "type,client,tx,amount\n\
                 deposit,1,1,3.0\n\
                 resolve,1,1,\n\
                 deposit,1,2,4.0";
    let mut processor = processor();
    assert!(matches!(
        processor.process(input.as_bytes()),
        Err(TransactionStreamProcessError::ProcessError(_))
    ));
    assert_eq!(
        summary_of(processor),
        "client,available,held,total,locked\n1,3.0000,0.0000,3.0000,false\n"
    );
}
