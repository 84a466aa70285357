//! Escrow custody core: deterministic address derivation, escrow record
//! creation, idempotent holding-account provisioning, and authorized value
//! transfer, verified against an explicit model of the host ledger.

pub mod addr;
pub mod error;
pub mod laws;
pub mod ledger;
pub mod ops;
