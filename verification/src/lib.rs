//! Verified core of a decentralized-identity credential pipeline.
//!
//! An issuer vouches for a driver's identity attributes through a signed
//! credential; the driver bundles that credential into a signed presentation;
//! a verifier checks the presentation's authenticity, expiry, and
//! subject-holder binding.  The cryptographic provider, the ledger, and the
//! persisted artifact store are modeled as explicit in-memory capabilities so
//! that the trust-protocol logic (ordering of checks, binding enforcement,
//! fail-fast aggregation, publish-once identity creation) is fully specified
//! and proved.

pub mod errors;
pub mod text;
pub mod sign;
pub mod vault;
pub mod document;
pub mod ledger;
pub mod resolver;
pub mod identity;
pub mod credential;
pub mod presentation;
pub mod verify;
pub mod workflow;
pub mod config;
pub mod laws;
