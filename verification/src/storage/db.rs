//! The interfaces of the transactional key-value store.

pub mod db_error;
pub mod transaction;
pub mod interface;
