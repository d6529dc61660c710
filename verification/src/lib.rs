//! Core of a small web API's authentication subsystem: password-hash
//! derivation, signed bearer-token issuance and verification, request-to-
//! identity resolution, and role-based access decisions.
//!
//! Route dispatch, configuration loading and the document store are outside
//! collaborators: the functions here consume plain values (header bytes,
//! lookup results) and produce an identity-or-error result.
pub mod auth;
pub mod b64;
pub mod bytes;
pub mod config;
pub mod credentials;
pub mod errors;
pub mod hex;
pub mod models;
pub mod payload;
pub mod resolver;
pub mod strings;
