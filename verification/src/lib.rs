//! Verified core of a delivery-customer backend: authentication and
//! session-token management.
//!
//! The subsystem issues and verifies ES256-signed access tokens, creates
//! refresh tokens with bounded lifetime, and keeps them in an in-memory
//! store keyed by token identity. The token codec frames and parses the
//! signed message itself; only the cryptographic primitives, the random
//! source, the clock and the concurrent map are trusted at the boundary.

pub mod auth;
pub mod b64;
pub mod customer;
pub mod digits;
pub mod jwt;
pub mod keys;
pub mod password;
pub mod payload;
pub mod store;
pub mod token;
pub mod user;
