//! Commit/reveal construction for inscribing a payload on a satoshi with a
//! Taproot script-path spend.
//!
//! `inscribe::prepare_commit` picks the sat and derives the commit output;
//! once a commit transaction pays it, `inscribe::create_reveal` builds, pays
//! the fee of, and signs the reveal transaction, and derives the recovery key.

/// Outpoints, satpoints and transactions as plain values, with their wire sizes.
pub mod model;
/// Why an inscription fails.
pub mod error;
/// Choosing the sat to inscribe, and refusing inscribed outputs.
pub mod select;
/// The reveal script with its envelope, and the commit output script.
pub mod script;
/// Keys, Taproot commitments, signatures and transaction hashes.
pub mod crypto;
/// Fee rates, fees and dust thresholds.
pub mod fee;
/// The commit/reveal pipeline.
pub mod inscribe;
