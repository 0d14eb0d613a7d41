//! Aggregation of exchange, farming and token state into a keyed cache.
//!
//! The library holds the decisions of the pipeline: which view calls to make,
//! how their decoded answers are merged, and what is committed to the cache.
//! Performing the calls and persisting the cache is left to the caller.

pub mod consts;
pub mod decimal;
pub mod error;
pub mod farms;
pub mod json;
pub mod models;
pub mod pools;
pub mod refresh;
pub mod request;
pub mod store;
pub mod table;
pub mod text;
pub mod tokens;
