//! Settlement core of an optimistic off-chain exchange: ledger model, spot-trade
//! matching arithmetic, log-replay verifier and the commitment lifecycle.
pub mod crypto;
pub mod laws;
pub mod ledger;
pub mod lifecycle;
pub mod matching;
pub mod types;
pub mod replay;

