//! An encrypted credential vault: master-password authentication, per-secret
//! authenticated encryption, and a durable key-value store of encrypted entries.
pub mod error;
pub mod crypto;
pub mod envelope;
pub mod store;
pub mod auth;
