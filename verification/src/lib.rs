//! An in-memory store of clients, invoices and invoice items.
//!
//! The records are loaded once, from three tables of comma-separated text
//! with a header row each, and then live in three collections, every one
//! behind a reader-writer lock of its own. `db::DataContext::init` builds the
//! store; `db::Collection::with_read` and `db::Collection::with_exclusive`
//! are the only ways to its records.

pub mod cells;
pub mod date;
pub mod decimal;
pub mod db;
pub mod error;
pub mod loader;
pub mod models;
pub mod rows;
