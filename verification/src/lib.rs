//! Extraction and validation of static-tracing provider specifications.
//!
//! A provider is declared as a trait carrying a marker attribute; each of its
//! methods declares one probe. This crate scans declarations for candidate
//! providers, validates their shape, derives each provider's canonical name,
//! canonical text and content hash, and serializes the resulting
//! specification losslessly.

pub mod canon;
pub mod codec;
pub mod errors;
pub mod hashing;
pub mod model;
pub mod naming;
pub mod probe;
pub mod provider;
pub mod validate;
