use vstd::prelude::*;
use crate::storage::db::db_error::DbError;
use crate::storage::db::transaction::{DbTx, RoDbTx};

verus! {

/// Whether `value` is what the function can return when it is handed a
/// transaction.
pub open spec fn returned_by<Tx, T, F: FnOnce(&Tx) -> T>(f: F, value: T) -> bool {
    exists|transaction: Tx| #[trigger] f.ensures((&transaction,), value)
}

/// What comes of a function that ran in a transaction, once the
/// transaction was closed: what the function returned where closing
/// succeeded, and else the error of closing.
pub open spec fn after_commit<T>(fnExecutionResult: T, committed: Result<bool, DbError>) -> Result<
    T,
    DbError,
> {
    match committed {
        Ok(_) => Ok(fnExecutionResult),
        Err(error) => Err(error),
    }
}

/// What comes of a function that ran in a transaction, once the
/// transaction was closed: what the function returned where closing
/// succeeded, and else the error of closing.
pub fn afterCommit<T>(fnExecutionResult: T, committed: Result<bool, DbError>) -> (result: Result<
    T,
    DbError,
>)
    ensures
        result == after_commit(fnExecutionResult, committed),
{
    match committed {
        Ok(_) => Ok(fnExecutionResult),
        Err(error) => Err(error),
    }
}

/// Whether `result` is what comes of a function that is run in a
/// transaction which `opened` tells of. Where opening failed, it is the
/// error of opening, and the function has not run. Where a transaction was
/// opened, the function has run on it and returned some value, the
/// transaction was then closed, and the result is what `afterCommit` makes
/// of that value and of what closing returned.
pub open spec fn ran_in_transaction<Tx: RoDbTx, T, F: FnOnce(&Tx) -> T>(
    opened: Result<Tx, DbError>,
    f: F,
    result: Result<T, DbError>,
) -> bool {
    match opened {
        Err(error) => result == Err::<T, DbError>(error),
        Ok(transaction) => exists|value: T, committed: Result<bool, DbError>|
            #![trigger f.ensures((&transaction,), value), call_ensures(Tx::commit, (transaction,), committed)]
            f.ensures((&transaction,), value) && call_ensures(
                Tx::commit,
                (transaction,),
                committed,
            ) && result == after_commit(value, committed),
    }
}

/// Can open read-only and read-writeable transactions.
pub trait Db: Send + Sync + Sized {
    type RoDbTx: RoDbTx + 'static;

    type DbTx: RoDbTx + DbTx + 'static;

    /// Creates and returns a read-only database transaction.
    fn roDbTx(&self) -> Result<Self::RoDbTx, DbError>;

    /// Creates and returns a read-writeable database transaction.
    fn dbTx(&self) -> Result<Self::DbTx, DbError>;

    /// Executes a function by creating and passing a read-only transaction
    /// to it. The transaction is closed after the function has run, and what
    /// the function returned is handed out if opening and closing both
    /// succeeded. Where opening fails the function does not run, and the
    /// error of opening is handed out; where closing fails, the error of
    /// closing.
    fn withRoDbTx<T, F>(&self, f: F) -> (result: Result<T, DbError>) where
        F: FnOnce(&Self::RoDbTx) -> T,

        requires
            forall|transaction: &Self::RoDbTx| f.requires((transaction,)),
        ensures
            exists|opened: Result<Self::RoDbTx, DbError>| #[trigger]
                call_ensures(Self::roDbTx, (self,), opened) && ran_in_transaction::<
                    Self::RoDbTx,
                    T,
                    F,
                >(opened, f, result),
            match result {
                Ok(value) => returned_by::<Self::RoDbTx, T, F>(f, value),
                Err(_) => true,
            },
    {
        let opened = self.roDbTx();
        assert(call_ensures(Self::roDbTx, (self,), opened));
        let roDbTx = match opened {
            Ok(roDbTx) => roDbTx,
            Err(error) => {
                return Err(error);
            },
        };
        let fnExecutionResult = f(&roDbTx);
        assert(f.ensures((&roDbTx,), fnExecutionResult));
        let ghost transaction = roDbTx;
        let committed = roDbTx.commit();
        assert(call_ensures(<Self::RoDbTx as RoDbTx>::commit, (transaction,), committed));
        afterCommit(fnExecutionResult, committed)
    }

    /// Executes a function by creating and passing a read-writeable
    /// transaction to it. The transaction is closed after the function has
    /// run, and what the function returned is handed out if opening and
    /// closing both succeeded. Where opening fails the function does not
    /// run, and the error of opening is handed out; where closing fails, the
    /// error of closing.
    fn withDbTx<T, F>(&self, f: F) -> (result: Result<T, DbError>) where
        F: FnOnce(&Self::DbTx) -> T,

        requires
            forall|transaction: &Self::DbTx| f.requires((transaction,)),
        ensures
            exists|opened: Result<Self::DbTx, DbError>| #[trigger]
                call_ensures(Self::dbTx, (self,), opened) && ran_in_transaction::<
                    Self::DbTx,
                    T,
                    F,
                >(opened, f, result),
            match result {
                Ok(value) => returned_by::<Self::DbTx, T, F>(f, value),
                Err(_) => true,
            },
    {
        let opened = self.dbTx();
        assert(call_ensures(Self::dbTx, (self,), opened));
        let dbTx = match opened {
            Ok(dbTx) => dbTx,
            Err(error) => {
                return Err(error);
            },
        };
        let fnExecutionResult = f(&dbTx);
        assert(f.ensures((&dbTx,), fnExecutionResult));
        let ghost transaction = dbTx;
        let committed = dbTx.commit();
        assert(call_ensures(<Self::DbTx as RoDbTx>::commit, (transaction,), committed));
        afterCommit(fnExecutionResult, committed)
    }
}

} // verus!

