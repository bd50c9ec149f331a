#![allow(non_snake_case)]

//! The synchronization engine of a blockchain execution client, and the small
//! leaf libraries it leans on.
//!
//! * [`sync`]: the stage pipeline, as a state machine that decides what a
//!   driver has to do next and how the outcome changes the pipeline;
//! * [`utils`]: the fan-out broadcaster of events;
//! * [`storage`]: the transactional store's interfaces, the compact binary
//!   encoding and the plan of the static files;
//! * [`rpc`]: the transaction requests of the RPC layer;
//! * [`primitives`]: the plain values that ledger data is made of.

pub mod primitives;
pub mod rpc;
pub mod storage;
pub mod sync;
pub mod utils;
