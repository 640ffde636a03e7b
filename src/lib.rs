//! A two-party token-swap escrow over an in-memory token ledger.
//!
//! An initializer locks a quantity of asset A in a vault whose authority is the
//! escrow's program-derived address; a counterparty later supplies asset B and
//! receives the vault's contents, or the initializer cancels and takes the vault
//! back. Each operation either applies all of its effects or none.
pub mod address;
pub mod model;
pub mod ledger;
pub mod laws;
