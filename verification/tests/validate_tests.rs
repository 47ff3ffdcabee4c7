// Validation of raw records: tag matching, amount checks, and
// rounding to four decimal places (half to even).

use transaction_engine::types::Transaction;
use transaction_engine::types::TransactionType;
use transaction_engine::validate::InputCsvRecord;
use transaction_engine::validate::RawAmount;
use transaction_engine::validate::RecordError;
use transaction_engine::validate::round_to_units;

fn raw(negative: bool, mantissa: u128, scale: u32) -> Option<RawAmount> {
    Some(RawAmount { negative, mantissa, scale })
}

fn record(tag: &str, client: u16, tx: u32, amount: Option<RawAmount>) -> InputCsvRecord {
    InputCsvRecord { record_type: String::from(tag), client, tx, amount }
}

#[test]
fn accepts_a_deposit_with_a_positive_amount() {
    // 5.4321 is mantissa 54321 at scale 4.
    let r = Transaction::try_from(record("deposit", 3, 10, raw(false, 54321, 4)));
    assert_eq!(
        r,
        Ok(Transaction { client: 3, tx: 10, tx_type: TransactionType::Deposit(54321) })
    );
}

#[test]
fn accepts_a_withdrawal_and_scales_whole_numbers() {
    // 2 at scale 0 is 20000 ten-thousandths.
    let r = Transaction::try_from(record("withdrawal", 7, 42, raw(false, 2, 0)));
    assert_eq!(
        r,
        Ok(Transaction { client: 7, tx: 42, tx_type: TransactionType::Withdrawal(20000) })
    );
}

#[test]
fn rejects_an_unknown_record_type() {
    let r = Transaction::try_from(record("transfer", 1, 1, raw(false, 10000, 4)));
    assert_eq!(r, Err(RecordError::UnknownRecordType));
    let r = Transaction::try_from(record("Deposit", 1, 1, raw(false, 10000, 4)));
    assert_eq!(r, Err(RecordError::UnknownRecordType));
}

#[test]
fn rejects_a_missing_amount() {
    assert_eq!(
        Transaction::try_from(record("deposit", 1, 1, None)),
        Err(RecordError::MissingAmount)
    );
    assert_eq!(
        Transaction::try_from(record("withdrawal", 1, 1, None)),
        Err(RecordError::MissingAmount)
    );
}

#[test]
fn rejects_a_zero_or_negative_amount() {
    assert_eq!(
        Transaction::try_from(record("deposit", 1, 1, raw(false, 0, 0))),
        Err(RecordError::InvalidAmount)
    );
    assert_eq!(
        Transaction::try_from(record("withdrawal", 1, 1, raw(true, 25, 1))),
        Err(RecordError::InvalidAmount)
    );
}

#[test]
fn dispute_resolve_chargeback_ignore_any_amount() {
    assert_eq!(
        Transaction::try_from(record("dispute", 3, 10, raw(true, 99, 0))),
        Ok(Transaction { client: 3, tx: 10, tx_type: TransactionType::Dispute })
    );
    assert_eq!(
        Transaction::try_from(record("resolve", 3, 10, None)),
        Ok(Transaction { client: 3, tx: 10, tx_type: TransactionType::Resolve })
    );
    assert_eq!(
        Transaction::try_from(record("chargeback", 3, 10, raw(false, 1, 4))),
        Ok(Transaction { client: 3, tx: 10, tx_type: TransactionType::Chargeback })
    );
}

#[test]
fn rounds_half_to_even_at_the_fourth_place() {
    // 2.34565 sits exactly on the half: the even neighbour 2.3456 wins.
    assert_eq!(round_to_units(234565, 5), 23456);
    // 2.34575 sits on the half too: rounds up to the even 2.3458.
    assert_eq!(round_to_units(234575, 5), 23458);
    // Below the half rounds down, above it rounds up.
    assert_eq!(round_to_units(234561, 5), 23456);
    assert_eq!(round_to_units(234569, 5), 23457);
    // Fewer than four places is exact.
    assert_eq!(round_to_units(103, 1), 103000);
    // A deposit whose fraction rounds away entirely becomes zero units.
    assert_eq!(round_to_units(4, 5), 0);
}

#[test]
fn a_tiny_positive_amount_may_round_to_zero_units() {
    // 0.00004 is positive, so it validates, and rounds to 0.0000.
    let r = Transaction::try_from(record("deposit", 1, 1, raw(false, 4, 5)));
    assert_eq!(
        r,
        Ok(Transaction { client: 1, tx: 1, tx_type: TransactionType::Deposit(0) })
    );
}
