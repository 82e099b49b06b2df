//! A single-batch transaction summarizer.
//!
//! The crate ingests an ordered stream of per-client ledger events
//! (deposits, withdrawals, disputes, resolutions and chargebacks),
//! replays each client's events through a small account state machine,
//! and reports the final balances.
//!
//! Monetary values are fixed-point decimals with four fractional
//! digits, stored as `i64` multiples of one ten-thousandth of a unit.
//! Working at this canonical precision keeps every balance exact: no
//! binary floating-point drift can accumulate across operations.

pub mod account;
pub mod partition;
pub mod summarize;

pub use account::Account;
pub use account::AccountError;
pub use account::Transaction;
pub use partition::group_by_client;
pub use partition::split;
pub use summarize::summarize_transactions;
