//! Grocery price tracking: barcode validation, a price book that resolves
//! product and store identities idempotently and records one price per
//! product, store and day, and the ranking of nearby prices.

pub mod book;
pub mod error;
pub mod names;
pub mod proximity;
pub mod stores;
pub mod types;
