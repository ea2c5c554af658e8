//! Share accounting and rebalance decisions for a pooled-deposit vault.
//!
//! Depositors pay a base asset into the pool and receive claim tokens for
//! their share of it. From time to time the vault compares the yields of a
//! set of protocols and, when one is strictly better than the one it has
//! selected, moves there and pays a flat fee out of the pool.
//!
//! - `shares`: the prices of deposits and redemptions, in exact integers.
//! - `monitor`: the cooldown between two yield evaluations.
//! - `oracle`: a yield report and the choice of its best quote.
//! - `vault`: the vault record and the operations on it.
//! - `ledger`: a model of the holders' accounts, for stating the laws.
//! - `laws`: what holds of the operations taken together.
//! - `error`: the faults that refuse an operation.
//!
//! The library keeps books only. Moving the asset, minting and burning claim
//! tokens, reading the clock and asking the oracle are the caller's part: the
//! caller passes the time and the report in, and carries out what an
//! operation returns.

pub mod error;
pub mod laws;
pub mod ledger;
pub mod monitor;
pub mod oracle;
pub mod shares;
pub mod vault;
