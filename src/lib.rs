//! Stateless navigation tokens for a chat bot: a command codec that packs a
//! command and its arguments into a short URL-safe token, a bounded resolver
//! for nested entry tokens, and a compaction store that swaps long keys for
//! small integer ids.
pub mod text;
pub mod b64;
pub mod codec;
pub mod command;
pub mod resolve;
pub mod keystore;
pub mod auxcache;
pub mod util;
pub mod config;
pub mod models;
pub mod catalog;
pub mod message;
pub mod net;
pub mod listing;
