use vstd::prelude::*;
use crate::storage::db::db_error::DbError;

verus! {

/// What every transaction can do, read-only or not.
pub trait RoDbTx: Send + Sync {
    /// Closes the transaction, making durable what was written in it.
    fn commit(self) -> Result<bool, DbError>;
}

/// A transaction that can also write.
pub trait DbTx: Send + Sync {
}

} // verus!
