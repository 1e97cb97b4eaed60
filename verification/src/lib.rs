//! A cross-chain bridge core: a consul registry and an oracle registry whose
//! rotations are gated by threshold signatures, a bridge relay that runs a
//! command stream against a token ledger, and the ledger itself.

pub mod bytes;
pub mod crypto;
pub mod gravity;
pub mod ibport;
pub mod nebula;
pub mod quorum;
pub mod token;
