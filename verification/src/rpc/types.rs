//! The transactions that a client asks the node to send.

pub mod transaction_request;
pub mod typed_transaction_request;
