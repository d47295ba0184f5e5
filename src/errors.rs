use vstd::prelude::*;

verus! {

/// The failures that the tables and indexes report to their callers.
#[derive(Debug, PartialEq, Eq)]
pub enum Error {
    /// `find` was given an id that the table never issued.
    RecordNotFound(usize),
    /// A lock was left poisoned by a holder that panicked; carries the
    /// lock's own description of the failure.
    LockPoisoned(String),
    /// The table has issued every id that `usize` can hold.
    IdsExhausted,
}

} // verus!
