//! Index and decision logic of a personalised "following, without reposts" feed generator.
//!
//! The crate holds the indexed data model, the feed query with its pagination, the handlers
//! that turn stream commits into index mutations, the checks of the request tokens, the
//! per-page steps of backfill and reconciliation, and the life of the stream subscription.
//! Every function carries a contract that Verus proves. Calls into other crates (dates,
//! base64, JSON, keys and signatures, random record keys) stand behind small trusted
//! functions whose contracts name what those crates return. Network and storage belong to
//! the embedding program, which hands in what it read and the present instant.

pub mod types;
pub mod instant;
pub mod ranking;
pub mod model;
pub mod text;
pub mod database;
pub mod record;
pub mod jetstream_consumer;
pub mod laws;
pub mod auth;
pub mod feed_algorithm;
pub mod service;
pub mod backfill;
pub mod cleanup;
pub mod connection;
pub mod admin_socket;
