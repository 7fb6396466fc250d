//! A verified two-party token-swap escrow.
//!
//! A maker deposits an asset into a program-controlled vault and names the
//! asset and amount wanted in return; a taker may settle the trade atomically,
//! or the maker may cancel and reclaim the deposit. The crate models the
//! surrounding ledger as a [`world::World`] of token balances and escrow
//! slots, and proves that the three instructions — `make`, `take` and
//! `refund_and_close_vault` in [`ops`] — move funds exactly as promised and
//! never leave a partial state behind.

pub mod addresses;
pub mod errors;
pub mod laws;
pub mod ledger;
pub mod ops;
pub mod state;
pub mod world;
