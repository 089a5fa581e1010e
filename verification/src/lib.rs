//! A read-oriented mod catalog: a local replica of two tables (mod records
//! and their versions) that is queried by name or listed by recency, and
//! refreshed by an authorized full-replace sync from a remote source of truth.

pub mod text;
pub mod store;
pub mod query;
pub mod sync;
