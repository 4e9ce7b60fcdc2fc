//! Azure access tokens from a chain of credentials.
pub mod cache;
pub mod chain;
pub mod credentials;
pub mod entry;
pub mod error;
pub mod managed_identity;
pub mod process;
pub mod scope;
