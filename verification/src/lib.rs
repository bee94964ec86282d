//! Verified core of a federated-analytics verification pipeline:
//! additively homomorphic Pedersen-style commitments over a small
//! prime-order Weierstrass curve, a Pollard's-rho discrete-log solver
//! that opens aggregated commitments, and a multi-key homomorphic
//! signature scheme over BLS12-381 with Ed25519 tag authentication.

pub mod errors;
pub mod aggregator;
pub mod bls;
pub mod client;
pub mod commitment;
pub mod dataset;
pub mod ec;
pub mod field;
pub mod mkhs;
pub mod rho;
