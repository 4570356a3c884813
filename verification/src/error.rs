use vstd::prelude::*;

verus! {

/// Why the store refused an operation.
#[derive(Clone, Copy, Debug, PartialEq, Eq)]
pub enum Error {
    /// A uniqueness rule of a table was violated.
    ConstraintViolation,
    /// The voter already has a ballot on record.
    DuplicateBallot,
    /// The store could not complete the operation.
    StorageError,
    /// A row that the request refers to does not exist. Only the strict
    /// operations of the store look for it.
    ReferenceNotFound,
}

/// The five tables of the store.
#[derive(Clone, Copy, Debug, PartialEq, Eq)]
pub enum Table {
    Official,
    Voter,
    Office,
    Candidate,
    Ballot,
}

/// The error that stands for a failure of the durable store on `table`: a
/// violated uniqueness rule is a `DuplicateBallot` on the ballot table and a
/// `ConstraintViolation` on the others; any other failure is a
/// `StorageError`.
pub open spec fn failure_kind(table: Table, uniqueness_violated: bool) -> Error {
    if !uniqueness_violated {
        Error::StorageError
    } else if table == Table::Ballot {
        Error::DuplicateBallot
    } else {
        Error::ConstraintViolation
    }
}

/// Names the error for a failure that the durable store reported on `table`.
pub fn classify_failure(table: Table, uniqueness_violated: bool) -> (error: Error)
    ensures
        error == failure_kind(table, uniqueness_violated),
{
    if !uniqueness_violated {
        return Error::StorageError;
    }
    match table {
        Table::Ballot => Error::DuplicateBallot,
        _ => Error::ConstraintViolation,
    }
}

impl Error {
    /// The text that describes each error.
    pub open spec fn message_text(self) -> Seq<char> {
        match self {
            Error::ConstraintViolation => "uniqueness constraint violated"@,
            Error::DuplicateBallot => "a ballot is already recorded for this voter"@,
            Error::StorageError => "the store could not complete the operation"@,
            Error::ReferenceNotFound => "the request refers to a row that does not exist"@,
        }
    }

    /// A description of the error for the caller.
    pub fn message(&self) -> (text: String)
        ensures
            text@ == self.message_text(),
    {
        match self {
            Error::ConstraintViolation => "uniqueness constraint violated".to_owned(),
            Error::DuplicateBallot => "a ballot is already recorded for this voter".to_owned(),
            Error::StorageError => "the store could not complete the operation".to_owned(),
            Error::ReferenceNotFound => "the request refers to a row that does not exist".to_owned(),
        }
    }
}

} // verus!
