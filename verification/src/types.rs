//! The data types shared by the validator and the ledger engine.

use vstd::prelude::*;

verus! {

/// A client identifier.
pub type ClientId = u16;

/// A transaction identifier. Deposits and withdrawals carry a fresh id;
/// disputes, resolves and chargebacks reuse the id of the deposit they
/// refer to.
pub type TransactionId = u32;

/// A monetary amount, counted in units of one ten-thousandth
/// (so `12457` stands for `1.2457`).
pub type AmountType = u128;

/// What a transaction does. Deposits and withdrawals carry an amount;
/// the three dispute-related kinds only reference an earlier deposit.
#[derive(Clone, Copy, PartialEq, Eq, Structural, Debug)]
pub enum TransactionType {
    Deposit(AmountType),
    Withdrawal(AmountType),
    Dispute,
    Resolve,
    Chargeback,
}

/// One validated transaction, ready to be folded into the ledger.
#[derive(Clone, Copy, PartialEq, Eq, Structural, Debug)]
pub struct Transaction {
    pub client: ClientId,
    pub tx: TransactionId,
    pub tx_type: TransactionType,
}

/// The state of one client's account.
#[derive(Clone, Copy, PartialEq, Eq, Structural, Debug)]
pub struct ClientInfo {
    /// Funds the client can withdraw or have disputed.
    pub available: AmountType,
    /// Funds frozen by active disputes.
    pub held: AmountType,
    /// Once true, no further transaction for this client is applied.
    pub locked: bool,
}

/// The state of one client's account, as handed back to callers that
/// asked for the final mapping.
#[derive(Clone, Copy, PartialEq, Eq, Structural, Debug)]
pub struct ClientState {
    pub available: AmountType,
    pub held: AmountType,
    pub locked: bool,
}

/// The bookkeeping entry for one deposit ever seen, keyed by its
/// transaction id in the ledger. It remembers which client made the
/// deposit, for how much, and whether it is currently disputed.
#[derive(Clone, Copy, PartialEq, Eq, Structural, Debug)]
pub struct DepositRecord {
    pub client: ClientId,
    pub amount: AmountType,
    pub under_dispute: bool,
}

/// One row of the final report: the account state of one client
/// together with the total of available and held funds.
#[derive(Clone, Copy, PartialEq, Eq, Structural, Debug)]
pub struct OutputCsvRecord {
    pub client: ClientId,
    pub available: AmountType,
    pub held: AmountType,
    pub total: AmountType,
    pub locked: bool,
}

} // verus!
