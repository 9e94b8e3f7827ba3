//! A typed filter-compiler and value-materialization engine for flexible
//! record collections.
//!
//! Collections carry a per-field typed schema; entries store sparse typed
//! values, one value table per data kind. This crate validates and compiles
//! typed filter sets into predicates over the value space, evaluates them,
//! reassembles sparse typed values into uniform result rows, and paginates
//! collection listings.

pub mod auth;
pub mod collection;
pub mod entries;
pub mod store;
pub mod query;
pub mod text;
