use vstd::prelude::*;

verus! {

/// What can go wrong in the store.
#[derive(Debug, PartialEq, Eq)]
pub enum DbError {
    /// The store could not do what it was asked, for the reason it gives.
    Failure(String),
}

} // verus!
