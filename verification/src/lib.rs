//! A fetch-through cache for HTTP-retrieved resources, together with a
//! pagination-aware retrieval protocol layered on top of it.
//!
//! The crate models the cache store as a map from normalized resource keys to
//! entries holding a textual payload, a typed subset of the response headers,
//! and a write timestamp. The fetch orchestrator decides, per request, whether
//! to serve from the cache, revalidate a stale entry with a conditional GET,
//! or fetch fresh content, and writes results back to the store.

pub mod cacache_store;
pub mod cache;
pub mod date;
pub mod error;
pub mod fetchable;
pub mod headers;
pub mod key;
pub mod laws;
pub mod notes;
pub mod pagination;
pub mod request;
pub mod rules;
pub mod store;
pub mod tag;
pub mod textops;

pub use error::Error;
