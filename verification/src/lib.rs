//! Accounting core of a two-ledger yield-skimming vault.
//!
//! One ledger keeps per-principal stable-asset balances, pools deposited yield
//! in an accumulator and converts the pool into a secondary asset that it
//! hands out in proportion to the balances. The other ledger records deposited
//! principal and realises yield as the surplus of an externally reported
//! holding over that principal. Both are plain state machines: whoever embeds
//! them supplies the caller's identity and whatever the host chain reported,
//! and carries out the instructions they hand back.

pub mod arith;
pub mod sums;
pub mod text;
pub mod gate;
pub mod ledger_types;
pub mod ledger_model;
pub mod ledger;
pub mod vault_types;
pub mod vault_model;
pub mod vault;
pub mod laws;
