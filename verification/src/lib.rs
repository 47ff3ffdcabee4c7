//! A small ledger that folds a stream of financial transactions
//! (deposits, withdrawals, disputes, resolutions, chargebacks) into
//! per-client account states.
//!
//! Money is held in fixed-point units of one ten-thousandth
//! (four decimal places), so every balance is an unsigned integer and
//! all arithmetic is exact.

pub mod engine;
pub mod laws;
pub mod model;
pub mod types;
pub mod validate;
