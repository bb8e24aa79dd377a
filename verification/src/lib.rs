//! A content-addressed record store for a paste service, over the key spaces
//! of an embedded key-value engine.
//!
//! A record is stored under a random identifier and is reachable by three
//! kinds of key: the literal of its identifier, a short code derived from
//! the digest of its payload, and an alias that the uploader may choose.
//! `store` holds the operations, `answers` what they decide from the
//! answers of the engine, `state` the model that their contracts speak of,
//! `consistency` what they keep true of the three key spaces,
//! `codec` the stored form of a record, `model` the records and payloads,
//! `address` the derivation of content hash and short code, `request` what
//! a request says of a record. `engine`, `digest`, `base32`, `id`, `clock`
//! and `text` hold what the library takes from outside: each item there that
//! is not proved says so.

pub mod address;
pub mod answers;
pub mod base32;
pub mod clock;
pub mod codec;
pub mod consistency;
pub mod digest;
pub mod engine;
pub mod id;
pub mod model;
pub mod request;
pub mod state;
pub mod store;
pub mod text;
