//! A local replica of remote scrim records: the rules by which the replica is
//! synchronised with the remote match service, and the query engine that
//! filters it.

pub mod calls;
pub mod decode;
pub mod details;
pub mod document;
pub mod events;
pub mod filter;
pub mod idempotence;
pub mod json;
pub mod models;
pub mod pagination;
pub mod patch;
pub mod query;
pub mod remote;
pub mod retry;
pub mod store;
pub mod sync;
pub mod team;
pub mod text;
