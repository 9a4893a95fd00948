//! An authorization-gated score board: a single owner, recorded at
//! initialization, may assign a signed 32-bit score to any address; anyone
//! may read the owner or any address's score, which defaults to zero when
//! it was never set.
//!
//! The host runtime supplies storage, message encoding and caller
//! authentication; this crate holds the decision logic, verified.

pub mod addr;
pub mod contract;
pub mod error;
pub mod msg;
pub mod state;
