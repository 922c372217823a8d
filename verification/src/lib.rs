//! A minimal social-graph ledger core.
//!
//! The crate manages author profiles, posts, and follow relations as
//! uniquely-addressed records. Each mutating operation is one atomic
//! transaction: it is authorized against the caller's identity, validated,
//! and either applies its whole state transition or fails with an
//! [`errors::ErrorCode`] and leaves the ledger untouched.

pub mod counter;
pub mod counts;
pub mod errors;
pub mod laws;
pub mod ledger;
pub mod records;
pub mod state;
