//! Data that has reached a finalized state and won't undergo further changes
//! is copied from the database to static files, aggregated by block ranges.
//! Before getting copied, the data is divided into categories: block
//! headers, transactions, transaction receipts. The data of one category is
//! called a segment.

pub mod segment;
pub mod static_files_generator;
pub mod static_files_generator_event;
