use payments_engine::amount::Amount;
use payments_engine::transaction_request::{TransactionRequest, TransactionType};
use payments_engine::transaction_requests_reader::{DefaultTransactionRequestsReader, DummyReader};
use rust_decimal::Decimal;
use std::str::FromStr;

/// The request that the reader makes of one line of a file, field by
/// field as the file has them.
fn read_line(reader: &DefaultTransactionRequestsReader, line: &str) -> TransactionRequest {
    let fields: Vec<&str> = line.split(',').map(|field| field.trim()).collect();
    assert_eq!(fields.len(), 4);
    let transaction_type = match fields[0] {
        "deposit" => TransactionType::Deposit,
        "withdrawal" => TransactionType::Withdrawal,
        "dispute" => TransactionType::Dispute,
        "resolve" => TransactionType::Resolve,
        "chargeback" => TransactionType::Chargeback,
        other => panic!("no such kind of request: {}", other),
    };
    let amount = if fields[3].is_empty() {
        None
    } else {
        let decimal = Decimal::from_str(fields[3]).unwrap();
        Some((decimal.mantissa(), decimal.scale()))
    };
    reader
        .request(
            transaction_type,
            fields[1].parse().unwrap(),
            fields[2].parse().unwrap(),
            amount,
        )
        .unwrap()
}

#[test]
fn read_works_as_expected() {
    let content = "
        type, client, tx, amount
        deposit, 1, 1, 10.2
        withdrawal, 1, 2, 10.3
        dispute, 1, 1, 
        resolve, 1, 1, 
        dispute, 1, 1,
        chargeback, 1, 1, ";
    let transaction_requests_reader = DefaultTransactionRequestsReader::new("transactions.csv");
    let records: Vec<TransactionRequest> = content
        .lines()
        .skip(2)
        .map(|line| read_line(&transaction_requests_reader, line))
        .collect();
    assert_eq!(
        records,
        vec![
            TransactionRequest {
                transaction_type: TransactionType::Deposit,
                client_id: 1,
                transaction_id: 1,
                amount: Some(Amount::new(102, 1))
            },
            TransactionRequest {
                transaction_type: TransactionType::Withdrawal,
                client_id: 1,
                transaction_id: 2,
                amount: Some(Amount::new(103, 1))
            },
            TransactionRequest {
                transaction_type: TransactionType::Dispute,
                client_id: 1,
                transaction_id: 1,
                amount: None
            },
            TransactionRequest {
                transaction_type: TransactionType::Resolve,
                client_id: 1,
                transaction_id: 1,
                amount: None
            },
            TransactionRequest {
                transaction_type: TransactionType::Dispute,
                client_id: 1,
                transaction_id: 1,
                amount: None
            },
            TransactionRequest {
                transaction_type: TransactionType::Chargeback,
                client_id: 1,
                transaction_id: 1,
                amount: None
            }
        ]
    );
    assert_eq!(records[0].amount.unwrap().scale(), 1);
}

#[test]
fn read_enforces_the_decimal_scale() {
    let content = "
        type, client, tx, amount
        deposit, 1, 1, 10.23456";
    let transaction_requests_reader = DefaultTransactionRequestsReader::new("transactions.csv");
    let records: Vec<TransactionRequest> = content
        .lines()
        .skip(2)
        .map(|line| read_line(&transaction_requests_reader, line))
        .collect();
    assert_eq!(
        records,
        vec![TransactionRequest {
            transaction_type: TransactionType::Deposit,
            client_id: 1,
            transaction_id: 1,
            amount: Some(Amount::new(102345, 4))
        }]
    );
    assert_eq!(records[0].amount.unwrap().mantissa(), 102345);
    assert_eq!(records[0].amount.unwrap().scale(), 4);
}

#[test]
fn reader_keeps_its_path_and_four_digits() {
    let reader = DefaultTransactionRequestsReader::new("some/where.csv");
    assert_eq!(reader.path(), "some/where.csv");
    assert_eq!(reader.enforced_scale(), 4);
}

#[test]
fn enforce_scale_cuts_and_does_not_round() {
    let reader = DefaultTransactionRequestsReader::new("");
    assert_eq!(reader.enforce_scale(199999, 5), Some(Amount::new(19999, 4)));
    assert_eq!(reader.enforce_scale(-199999, 5), Some(Amount::new(-19999, 4)));
    assert_eq!(reader.enforce_scale(5, 5), Some(Amount::zero()));
    assert_eq!(
        reader.enforce_scale(1_000_000_000_000_000_000_000_000_001, 28),
        Some(Amount::new(1000, 4))
    );
    assert_eq!(reader.enforce_scale(12345, 4), Some(Amount::new(12345, 4)));
    assert_eq!(reader.enforce_scale(7, 0).unwrap().scale(), 0);
}

#[test]
fn enforce_scale_agrees_with_the_decimal_it_was_given() {
    let reader = DefaultTransactionRequestsReader::new("");
    for text in ["0.00019", "-3.14159265", "42", "1234.5678", "99999.99999", "-0.5"] {
        let decimal = Decimal::from_str(text).unwrap();
        let amount = reader
            .enforce_scale(decimal.mantissa(), decimal.scale())
            .unwrap();
        let cut = decimal.trunc_with_scale(4);
        assert_eq!(
            Decimal::from_i128_with_scale(amount.mantissa(), amount.scale()),
            cut
        );
        assert!(amount.scale() <= 4);
    }
}

#[test]
fn request_is_none_where_the_amount_cannot_be_held() {
    let reader = DefaultTransactionRequestsReader::new("");
    let largest: i128 = 79_228_162_514_264_337_593_543_950_335;
    assert_eq!(
        reader.request(TransactionType::Deposit, 1, 1, Some((largest, 0))),
        None
    );
    assert_eq!(
        reader.request(TransactionType::Deposit, 1, 1, Some((1, 29))),
        None
    );
    assert_eq!(
        reader.request(TransactionType::Deposit, 1, 1, Some((largest + 1, 28))),
        None
    );
    assert_eq!(
        reader.request(TransactionType::Withdrawal, 2, 3, Some((largest, 28))),
        Some(TransactionRequest {
            transaction_type: TransactionType::Withdrawal,
            client_id: 2,
            transaction_id: 3,
            amount: Some(Amount::new(79228, 4))
        })
    );
}

#[test]
fn dummy_reader_gives_a_deposit_for_every_id() {
    let reader = DummyReader {};
    assert_eq!(reader.len(), u32::MAX);
    assert_eq!(
        reader.get(0),
        Some(TransactionRequest {
            transaction_type: TransactionType::Deposit,
            client_id: 1,
            transaction_id: 1,
            amount: Some(Amount::new(10, 0))
        })
    );
    assert_eq!(reader.get(41).unwrap().transaction_id, 42);
    assert_eq!(reader.get(u32::MAX - 1).unwrap().transaction_id, u32::MAX);
    assert_eq!(reader.get(u32::MAX), None);
}
