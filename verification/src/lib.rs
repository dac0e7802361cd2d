//! Core of an end-to-end encrypted messaging service: conversation-scoped
//! session keys, an authenticated-encryption envelope for message content,
//! and a connection registry that routes ciphertext between live users.

pub mod aead;
pub mod asym;
pub mod auth;
pub mod config;
pub mod digest;
pub mod encoding;
pub mod encryption;
pub mod entropy;
pub mod lifecycle;
pub mod messages;
pub mod registry;
pub mod session_store;
