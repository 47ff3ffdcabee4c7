//! Validation of raw input records: the string type tag is matched
//! against the five known transaction kinds, and amounts are checked
//! for presence and positivity and rounded to four decimal places.
//!
//! A raw amount arrives as a sign, an integer coefficient and a scale:
//! the digits of a decimal literal together with the position of its
//! point, so `5.4321` is `mantissa 54321, scale 4`. Rounding to four
//! places uses round-half-to-even (banker's rounding).

use vstd::prelude::*;

use vstd::string::StringExecFns;

use crate::types::Transaction;
use crate::types::TransactionType;

verus! {

/// One more than the largest coefficient a raw amount may carry:
/// two to the 96th power, the coefficient range of a 96-bit decimal.
pub const MANTISSA_LIMIT: u128 = 79228162514264337593543950336;

/// The largest scale a raw amount may carry: a 96-bit decimal places
/// its point at most 28 digits in.
pub const MAX_SCALE: u32 = 28;

/// A raw decimal amount, exactly as parsed from the input: the value
/// is `mantissa / 10^scale`, negated when `negative` is set.
#[derive(Clone, Copy, PartialEq, Eq, Structural, Debug)]
pub struct RawAmount {
    pub negative: bool,
    pub mantissa: u128,
    pub scale: u32,
}

/// One raw input row, before validation: a string type tag, the two
/// ids, and an optional amount.
#[derive(Debug)]
pub struct InputCsvRecord {
    pub record_type: String,
    pub client: u16,
    pub tx: u32,
    pub amount: Option<RawAmount>,
}

/// Why a raw record was rejected.
#[derive(Clone, Copy, PartialEq, Eq, Structural, Debug)]
pub enum RecordError {
    /// The type tag is none of the five known kinds.
    UnknownRecordType,
    /// A deposit or withdrawal came without an amount.
    MissingAmount,
    /// A deposit or withdrawal came with a zero or negative amount.
    InvalidAmount,
}

/// Ten to the `n`th power.
pub open spec fn pow10(n: nat) -> int
    decreases n,
{
    if n == 0 {
        1
    } else {
        10 * pow10((n - 1) as nat)
    }
}

/// Powers of ten are positive.
pub proof fn lemma_pow10_pos(n: nat)
    ensures
        pow10(n) >= 1,
    decreases n,
{
    if n > 0 {
        lemma_pow10_pos((n - 1) as nat);
    }
}

/// Powers of ten grow with the exponent.
pub proof fn lemma_pow10_increases(a: nat, b: nat)
    requires
        a <= b,
    ensures
        pow10(a) <= pow10(b),
    decreases b,
{
    if a < b {
        lemma_pow10_increases(a, (b - 1) as nat);
        lemma_pow10_pos((b - 1) as nat);
    }
}

/// Ten to the `n`th power, executably.
fn pow10_u128(n: u32) -> (r: u128)
    requires
        n <= MAX_SCALE,
    ensures
        r as int == pow10(n as nat),
{
    proof {
        assert(pow10(28) == 10000000000000000000000000000) by {
            reveal_with_fuel(pow10, 29);
        }
    }
    let mut i: u32 = 0;
    let mut acc: u128 = 1;
    while i < n
        invariant
            i <= n,
            n <= MAX_SCALE,
            acc as int == pow10(i as nat),
            pow10(28) == 10000000000000000000000000000,
        decreases n - i,
    {
        proof {
            lemma_pow10_pos(i as nat);
            lemma_pow10_increases((i + 1) as nat, 28);
        }
        acc = acc * 10;
        i = i + 1;
    }
    acc
}

/// The number of ten-thousandth units that a nonnegative decimal
/// `m / 10^s` rounds to, rounding half to even at the fourth decimal
/// place. A value with four or fewer decimal places is exact.
pub open spec fn round_units(m: int, s: int) -> int
    recommends
        0 <= m,
        0 <= s,
{
    if s <= 4 {
        m * pow10((4 - s) as nat)
    } else {
        let d = pow10((s - 4) as nat);
        let q = m / d;
        let r = m % d;
        if 2 * r < d {
            q
        } else if 2 * r > d {
            q + 1
        } else if q % 2 == 0 {
            q
        } else {
            q + 1
        }
    }
}

/// Rounds a raw coefficient and scale to ten-thousandth units,
/// half to even.
pub fn round_to_units(mantissa: u128, scale: u32) -> (units: u128)
    requires
        mantissa < MANTISSA_LIMIT,
        scale <= MAX_SCALE,
    ensures
        units as int == round_units(mantissa as int, scale as int),
{
    if scale <= 4 {
        let f = pow10_u128(4 - scale);
        proof {
            lemma_pow10_pos((4 - scale) as nat);
            lemma_pow10_increases((4 - scale) as nat, 4);
            assert(pow10(4) == 10000) by {
                reveal_with_fuel(pow10, 5);
            }
            assert(mantissa as int * f as int <= (MANTISSA_LIMIT - 1) * 10000)
                by (nonlinear_arith)
                requires
                    mantissa as int <= MANTISSA_LIMIT - 1,
                    0 <= mantissa as int,
                    1 <= f as int,
                    f as int <= 10000,
            ;
        }
        mantissa * f
    } else {
        let d = pow10_u128(scale - 4);
        proof {
            lemma_pow10_pos((scale - 4) as nat);
            lemma_pow10_increases((scale - 4) as nat, 24);
            assert(pow10(24) == 1000000000000000000000000) by {
                reveal_with_fuel(pow10, 25);
            }
        }
        let q = mantissa / d;
        let r = mantissa % d;
        proof {
            assert(q as int <= mantissa as int) by (nonlinear_arith)
                requires
                    1 <= d as int,
                    0 <= mantissa as int,
                    q as int == mantissa as int / d as int,
            ;
        }
        let twice: u128 = 2 * r;
        if twice < d {
            q
        } else if twice > d {
            q + 1
        } else if q % 2 == 0 {
            q
        } else {
            q + 1
        }
    }
}

/// An amount that a deposit or withdrawal accepts: present, not
/// negative, not zero.
pub open spec fn positive_amount(a: RawAmount) -> bool {
    !a.negative && a.mantissa > 0
}

/// What checking an optional amount yields: the rounded units, or the
/// error that names what was wrong.
pub open spec fn convert_amount_spec(amount: Option<RawAmount>) -> Result<u128, RecordError> {
    match amount {
        Option::None => Result::Err(RecordError::MissingAmount),
        Option::Some(a) => if positive_amount(a) {
            Result::Ok(round_units(a.mantissa as int, a.scale as int) as u128)
        } else {
            Result::Err(RecordError::InvalidAmount)
        },
    }
}

/// The raw amount, if present, carries a coefficient and scale a
/// 96-bit decimal can carry. Every amount parsed from a decimal
/// literal does.
pub open spec fn raw_amount_in_range(amount: Option<RawAmount>) -> bool {
    match amount {
        Option::Some(a) => a.mantissa < MANTISSA_LIMIT && a.scale <= MAX_SCALE,
        Option::None => true,
    }
}

fn convert_amount(amount: Option<RawAmount>) -> (res: Result<u128, RecordError>)
    requires
        raw_amount_in_range(amount),
    ensures
        res == convert_amount_spec(amount),
{
    match amount {
        Option::None => Result::Err(RecordError::MissingAmount),
        Option::Some(a) => {
            if !a.negative && a.mantissa > 0 {
                Result::Ok(round_to_units(a.mantissa, a.scale))
            } else {
                Result::Err(RecordError::InvalidAmount)
            }
        },
    }
}

/// What validating a raw record yields: the well-typed transaction,
/// or the error that names what was wrong. The five type tags are
/// matched exactly; deposits and withdrawals must carry a positive
/// amount, which is rounded to four decimal places; the other three
/// kinds ignore any amount.
pub open spec fn validate_spec(rec: InputCsvRecord) -> Result<Transaction, RecordError> {
    if rec.record_type@ == "deposit"@ {
        match convert_amount_spec(rec.amount) {
            Result::Ok(units) => Result::Ok(
                Transaction {
                    client: rec.client,
                    tx: rec.tx,
                    tx_type: TransactionType::Deposit(units),
                },
            ),
            Result::Err(e) => Result::Err(e),
        }
    } else if rec.record_type@ == "withdrawal"@ {
        match convert_amount_spec(rec.amount) {
            Result::Ok(units) => Result::Ok(
                Transaction {
                    client: rec.client,
                    tx: rec.tx,
                    tx_type: TransactionType::Withdrawal(units),
                },
            ),
            Result::Err(e) => Result::Err(e),
        }
    } else if rec.record_type@ == "dispute"@ {
        Result::Ok(Transaction { client: rec.client, tx: rec.tx, tx_type: TransactionType::Dispute })
    } else if rec.record_type@ == "resolve"@ {
        Result::Ok(Transaction { client: rec.client, tx: rec.tx, tx_type: TransactionType::Resolve })
    } else if rec.record_type@ == "chargeback"@ {
        Result::Ok(
            Transaction { client: rec.client, tx: rec.tx, tx_type: TransactionType::Chargeback },
        )
    } else {
        Result::Err(RecordError::UnknownRecordType)
    }
}

impl Transaction {
    /// Validates a raw record and converts it to the internal,
    /// well-typed representation, exactly as `validate_spec` says.
    pub fn try_from(value: InputCsvRecord) -> (r: Result<Transaction, RecordError>)
        requires
            raw_amount_in_range(value.amount),
        ensures
            r == validate_spec(value),
    {
        if value.record_type == String::from_str("deposit") {
            match convert_amount(value.amount) {
                Result::Ok(units) => Result::Ok(
                    Transaction {
                        client: value.client,
                        tx: value.tx,
                        tx_type: TransactionType::Deposit(units),
                    },
                ),
                Result::Err(e) => Result::Err(e),
            }
        } else if value.record_type == String::from_str("withdrawal") {
            match convert_amount(value.amount) {
                Result::Ok(units) => Result::Ok(
                    Transaction {
                        client: value.client,
                        tx: value.tx,
                        tx_type: TransactionType::Withdrawal(units),
                    },
                ),
                Result::Err(e) => Result::Err(e),
            }
        } else if value.record_type == String::from_str("dispute") {
            Result::Ok(
                Transaction { client: value.client, tx: value.tx, tx_type: TransactionType::Dispute },
            )
        } else if value.record_type == String::from_str("resolve") {
            Result::Ok(
                Transaction { client: value.client, tx: value.tx, tx_type: TransactionType::Resolve },
            )
        } else if value.record_type == String::from_str("chargeback") {
            Result::Ok(
                Transaction {
                    client: value.client,
                    tx: value.tx,
                    tx_type: TransactionType::Chargeback,
                },
            )
        } else {
            Result::Err(RecordError::UnknownRecordType)
        }
    }
}

} // verus!
