//! What the synchronization engine rests on: the interfaces of the
//! transactional store, the compact encoding of what is stored, and the
//! static files that hold what no longer changes.

pub mod compression;
pub mod db;
pub mod static_files;
