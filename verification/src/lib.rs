//! Verified core of the Grainlify escrow contracts: contract versioning with
//! replay-protected migrations, multisig upgrade proposals, per-program
//! escrow accounting with batch payouts and fees, the failure circuit
//! breaker, and the delegate audit queries.

pub mod address;
pub mod circuit_breaker;
pub mod fees;
pub mod migration;
pub mod multisig;
pub mod program_escrow;
