use ledger_engine::amount::Amount;
use ledger_engine::error::Error;
use ledger_engine::tx::{
    DomesticTransaction, SupportTransaction, Transaction, TransactionKind, TransactionRecord,
};

fn record(kind: TransactionKind, amount: Option<&str>) -> TransactionRecord {
    TransactionRecord { kind, client: 3, tx: 17, amount: amount.map(|a| a.to_string()) }
}

#[test]
fn amount_reads_decimal_text() {
    assert_eq!(Amount::parse("100.0"), Some(Amount { units: 1_000_000 }));
    assert_eq!(Amount::parse("100.0000"), Some(Amount { units: 1_000_000 }));
    assert_eq!(Amount::parse("1.5"), Some(Amount { units: 15_000 }));
    assert_eq!(Amount::parse("0"), Some(Amount { units: 0 }));
    assert_eq!(Amount::parse("0.0001"), Some(Amount { units: 1 }));
    assert_eq!(Amount::parse("42"), Some(Amount { units: 420_000 }));
}

#[test]
fn amount_rounds_to_four_places_half_to_even() {
    assert_eq!(Amount::parse("1.23456"), Some(Amount { units: 12_346 }));
    assert_eq!(Amount::parse("1.23454"), Some(Amount { units: 12_345 }));
    assert_eq!(Amount::parse("0.00005"), Some(Amount { units: 0 }));
    assert_eq!(Amount::parse("0.00015"), Some(Amount { units: 2 }));
    assert_eq!(Amount::parse("0.000250"), Some(Amount { units: 2 }));
}

#[test]
fn amount_rejects_what_it_cannot_hold() {
    assert_eq!(Amount::parse("-1"), None);
    assert_eq!(Amount::parse("-0.0001"), None);
    assert_eq!(Amount::parse("abc"), None);
    assert_eq!(Amount::parse(""), None);
    assert_eq!(Amount::parse("1844674407370955.1615"), Some(Amount { units: u64::MAX }));
    assert_eq!(Amount::parse("1844674407370955.1616"), None);
}

#[test]
fn amount_from_parts_scales_and_rounds() {
    assert_eq!(Amount::from_parts(25, 1), Some(Amount { units: 25_000 }));
    assert_eq!(Amount::from_parts(1_234_567, 7), Some(Amount { units: 1_235 }));
    assert_eq!(Amount::from_parts(125, 6), Some(Amount { units: 1 }));
    assert_eq!(Amount::from_parts(135, 6), Some(Amount { units: 1 }));
    assert_eq!(Amount::from_parts(151, 6), Some(Amount { units: 2 }));
    assert_eq!(Amount::from_parts(7, 28), Some(Amount { units: 0 }));
    assert_eq!(Amount::from_parts(-5, 2), None);
    assert_eq!(Amount::from_parts(i64::MAX as i128, 0), None);
}

#[test]
fn deposit_record_decodes_with_its_amount() {
    let decoded = record(TransactionKind::Deposit, Some("2.5")).into_transaction();
    assert_eq!(
        decoded,
        Ok(Transaction::Deposit(DomesticTransaction {
            amount: Amount { units: 25_000 },
            client: 3,
            tx: 17,
        }))
    );
}

#[test]
fn withdrawal_record_decodes_with_its_amount() {
    let decoded = record(TransactionKind::Withdrawal, Some("0.75")).into_transaction();
    assert_eq!(
        decoded,
        Ok(Transaction::Withdrawal(DomesticTransaction {
            amount: Amount { units: 7_500 },
            client: 3,
            tx: 17,
        }))
    );
}

#[test]
fn support_records_ignore_the_amount() {
    let support = SupportTransaction { client: 3, tx: 17 };
    assert_eq!(
        record(TransactionKind::Dispute, None).into_transaction(),
        Ok(Transaction::Dispute(support))
    );
    assert_eq!(
        record(TransactionKind::Resolve, Some("9")).into_transaction(),
        Ok(Transaction::Resolve(support))
    );
    assert_eq!(
        record(TransactionKind::Chargeback, Some("not a number")).into_transaction(),
        Ok(Transaction::Chargeback(support))
    );
}

#[test]
fn missing_amount_is_a_decode_error() {
    let rec = record(TransactionKind::Deposit, None);
    assert_eq!(rec.clone().into_transaction(), Err(Error::MissingAmount { record: rec }));
    let rec = record(TransactionKind::Withdrawal, None);
    assert_eq!(rec.clone().into_transaction(), Err(Error::MissingAmount { record: rec }));
}

#[test]
fn unreadable_amount_is_a_decode_error() {
    let rec = record(TransactionKind::Deposit, Some("-3"));
    assert_eq!(rec.clone().into_transaction(), Err(Error::InvalidAmount { record: rec }));
    let rec = record(TransactionKind::Withdrawal, Some("ten"));
    assert_eq!(rec.clone().into_transaction(), Err(Error::InvalidAmount { record: rec }));
}
