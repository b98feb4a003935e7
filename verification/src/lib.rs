//! A record store for geolocation observations in which the right to change
//! a record is proven by a secret handed out when the record was created.
//!
//! The crate holds the record lifecycle and the authorization rule. It never
//! touches the disk itself: every operation is a small state machine that
//! names the next request for the key-value table and decides what to do
//! with the reply.
//!
//! - `record`: an observation, and the record that is persisted.
//! - `codec`: the bytes of a persisted record.
//! - `token`: the form of ids and secrets.
//! - `store`: the requests to the table, its replies, and a model of it.
//! - `service`: create, update and list.
//! - `listing`: the mapping that list returns.
//! - `laws`: what holds of the operations on a table that keeps its word.
//! - `error`: how an operation can fail.

pub mod codec;
pub mod error;
pub mod laws;
pub mod listing;
pub mod record;
pub mod service;
pub mod store;
pub mod token;
