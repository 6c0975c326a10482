//! Keeps the DNS "A" records of a domain pointed at the caller's public address.
//!
//! The crate holds the two pieces that have to be exactly right: the request
//! signature that the DNS provider checks on every call, and the plan of
//! create, update and delete actions that brings the provider's record list in
//! line with the names the caller wants.

pub mod client;
pub mod config;
pub mod convergence;
pub mod digest;
pub mod error;
pub mod json;
pub mod plan_laws;
pub mod reconcile;
pub mod record;
pub mod response;
pub mod signer;
pub mod text;
