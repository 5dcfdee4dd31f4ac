//! Client-side signing for the Xero accounting API.
//!
//! The heart of the crate is the OAuth 1.0a request-authentication module:
//! building the canonical signature base string for a request, signing it
//! with RSA-SHA1 or HMAC-SHA1, and assembling the `Authorization` header.
//! The wire-facing data shapes of the accounting resources live under
//! [`resources`]; transport plumbing is left to the binary that links us.

pub mod text;
pub mod percent;
pub mod canonical;
pub mod oauth;
pub mod signer;
pub mod header;
pub mod application;
pub mod error;
pub mod encoding;
pub mod resources;
