//! Why an operation on the ledger is refused.

use vstd::prelude::*;

verus! {

/// The classes that every refusal falls into.
#[derive(Clone, Copy, PartialEq, Eq, Structural, Debug)]
pub enum ErrorKind {
    /// The request itself is wrong; nothing was changed or written.
    InvalidInput,
    /// The record or category asked for is not there; nothing was changed.
    NotFound,
    /// Reading or writing the snapshot failed; the ledger in memory stands.
    Persistence,
    /// The text-completion service could not be reached or understood.
    Remote,
    /// The text-completion service has no credential to call with.
    Configuration,
}

/// Why the ledger refused an operation.
#[derive(Clone, Copy, PartialEq, Eq, Structural, Debug)]
pub enum LedgerError {
    /// The tag names no kind of record.
    UnknownKind,
    /// The amount is not above zero.
    NonPositiveAmount,
    /// The description or the category is empty.
    EmptyText,
    /// A category is to be renamed and the old or the new name is empty.
    EmptyRenameOperand,
    /// A category is to be deleted and its name is empty.
    EmptyDeleteOperand,
    /// The reserved category is to be renamed.
    ReservedRename,
    /// The reserved category is to be deleted.
    ReservedDelete,
    /// A category is to be renamed to the name it has.
    SameName,
    /// No record has the id.
    NoSuchRecord,
    /// No record is filed under the category that is to be renamed.
    NothingToRename,
    /// No record is filed under the category that is to be deleted.
    NothingToDelete,
}

impl LedgerError {
    /// The class of the refusal.
    pub open spec fn kind_of(self) -> ErrorKind {
        match self {
            LedgerError::NoSuchRecord
            | LedgerError::NothingToRename
            | LedgerError::NothingToDelete => ErrorKind::NotFound,
            _ => ErrorKind::InvalidInput,
        }
    }

    /// The class of the refusal.
    pub fn kind(self) -> (kind: ErrorKind)
        ensures
            kind == self.kind_of(),
    {
        match self {
            LedgerError::NoSuchRecord
            | LedgerError::NothingToRename
            | LedgerError::NothingToDelete => ErrorKind::NotFound,
            _ => ErrorKind::InvalidInput,
        }
    }
}

} // verus!
