//! An in-memory key-value store served by a fixed set of workers.
//!
//! `table` holds the key-to-entry mapping with one entry per key, `store`
//! gives its sequential get/put semantics, `shared` puts the two-level
//! reader-writer locking around it, `request` and `response` decode and
//! frame the HTTP exchange, and `pool` holds the worker pool's bookkeeping.
pub mod table;
pub mod store;
pub mod shared;
pub mod numeral;
pub mod request;
pub mod response;
pub mod service;
pub mod pool;
