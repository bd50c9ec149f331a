#![allow(non_snake_case)]

use staged_sync::storage::db::db_error::DbError;
use staged_sync::storage::db::interface::{afterCommit, Db};
use staged_sync::storage::db::transaction::{DbTx, RoDbTx};
use std::sync::atomic::{AtomicUsize, Ordering};
use std::sync::Arc;

struct CountingTx {
    commits: Arc<AtomicUsize>,
    fails: bool,
}

impl RoDbTx for CountingTx {
    fn commit(self) -> Result<bool, DbError> {
        if self.fails {
            return Err(DbError::Failure(String::from("commit refused")));
        }
        self.commits.fetch_add(1, Ordering::SeqCst);
        Ok(true)
    }
}

impl DbTx for CountingTx {}

struct CountingDb {
    commits: Arc<AtomicUsize>,
    opens: bool,
    commitFails: bool,
}

impl Db for CountingDb {
    type RoDbTx = CountingTx;
    type DbTx = CountingTx;

    fn roDbTx(&self) -> Result<CountingTx, DbError> {
        if self.opens {
            Ok(CountingTx { commits: self.commits.clone(), fails: self.commitFails })
        } else {
            Err(DbError::Failure(String::from("closed")))
        }
    }

    fn dbTx(&self) -> Result<CountingTx, DbError> {
        self.roDbTx()
    }
}

#[test]
fn the_function_runs_in_a_transaction_that_is_then_closed() {
    let commits = Arc::new(AtomicUsize::new(0));
    let db = CountingDb { commits: commits.clone(), opens: true, commitFails: false };
    assert_eq!(db.withRoDbTx(|_| 5), Ok(5));
    assert_eq!(commits.load(Ordering::SeqCst), 1);
    assert_eq!(db.withDbTx(|_| "written"), Ok("written"));
    assert_eq!(commits.load(Ordering::SeqCst), 2);
}

#[test]
fn the_function_does_not_run_when_no_transaction_opens() {
    let commits = Arc::new(AtomicUsize::new(0));
    let db = CountingDb { commits: commits.clone(), opens: false, commitFails: false };
    let ran = AtomicUsize::new(0);
    let result = db.withDbTx(|_| ran.fetch_add(1, Ordering::SeqCst));
    assert_eq!(result, Err(DbError::Failure(String::from("closed"))));
    assert_eq!(ran.load(Ordering::SeqCst), 0);
    assert_eq!(commits.load(Ordering::SeqCst), 0);
}

#[test]
fn a_failed_close_is_an_error() {
    let commits = Arc::new(AtomicUsize::new(0));
    let db = CountingDb { commits: commits.clone(), opens: true, commitFails: true };
    assert_eq!(db.withRoDbTx(|_| 1), Err(DbError::Failure(String::from("commit refused"))));
    assert_eq!(commits.load(Ordering::SeqCst), 0);
}

#[test]
fn what_the_function_returned_is_handed_out_only_when_closing_succeeded() {
    assert_eq!(afterCommit(5, Ok(true)), Ok(5));
    assert_eq!(afterCommit(5, Ok(false)), Ok(5));
    assert_eq!(
        afterCommit(5, Err(DbError::Failure(String::from("full")))),
        Err(DbError::Failure(String::from("full")))
    );
}
