//! The snapshot on disk, as far as it can be decided without touching the
//! disk: what a load amounts to, and how a failure is worded.

use vstd::prelude::*;
use vstd::string::StringExecFns;
use crate::record::Record;

verus! {

/// Why the snapshot could not be read or written. Each cause is worded by
/// whatever failed.
#[derive(Debug, PartialEq, Eq)]
pub enum PersistenceError {
    /// The file is there and could not be read.
    Unreadable(String),
    /// The file was read and is no list of records.
    Malformed(String),
    /// The directory of the file could not be made: the directory, the cause.
    DirectoryFailed(String, String),
    /// The records could not be encoded.
    EncodingFailed(String),
    /// The file could not be written.
    WriteFailed(String),
}

impl PersistenceError {
    /// The failure in words.
    pub open spec fn message_of(self) -> Seq<char> {
        match self {
            PersistenceError::Unreadable(cause) => "Error al leer archivo de datos: "@ + cause@,
            PersistenceError::Malformed(cause) => "Error al parsear datos de transacciones: "@
                + cause@,
            PersistenceError::DirectoryFailed(directory, cause) => "Falló la creación del directorio padre ("@
                + directory@ + "): "@ + cause@,
            PersistenceError::EncodingFailed(cause) => "Falló la serialización de transacciones para guardar: "@
                + cause@,
            PersistenceError::WriteFailed(cause) => "Error al guardar transacciones: "@ + cause@,
        }
    }

    /// The failure in words.
    pub fn message(&self) -> (message: String)
        ensures
            message@ == self.message_of(),
    {
        match self {
            PersistenceError::Unreadable(cause) => String::from_str(
                "Error al leer archivo de datos: ",
            ).concat(cause.as_str()),
            PersistenceError::Malformed(cause) => String::from_str(
                "Error al parsear datos de transacciones: ",
            ).concat(cause.as_str()),
            PersistenceError::DirectoryFailed(directory, cause) => String::from_str(
                "Falló la creación del directorio padre (",
            ).concat(directory.as_str()).concat("): ").concat(cause.as_str()),
            PersistenceError::EncodingFailed(cause) => String::from_str(
                "Falló la serialización de transacciones para guardar: ",
            ).concat(cause.as_str()),
            PersistenceError::WriteFailed(cause) => String::from_str(
                "Error al guardar transacciones: ",
            ).concat(cause.as_str()),
        }
    }
}

/// What was found where the snapshot is kept.
#[derive(Debug, PartialEq, Eq)]
pub enum Found {
    /// No file: the ledger has never been saved.
    Missing,
    /// A file that could not be read; the cause.
    Unreadable(String),
    /// A file that is no list of records; the cause.
    Malformed(String),
    /// The records of the file, in its order.
    Records(Vec<Record>),
}

/// What a load amounts to: no file is an empty ledger and no failure; a
/// file gives its records as they stand; a file that could not be read or
/// understood is a failure with its cause.
pub fn load_outcome(found: Found) -> (result: Result<Vec<Record>, PersistenceError>)
    ensures
        match found {
            Found::Missing => result matches Ok(records) && records@.len() == 0,
            Found::Unreadable(cause) => result == Err::<Vec<Record>, PersistenceError>(
                PersistenceError::Unreadable(cause),
            ),
            Found::Malformed(cause) => result == Err::<Vec<Record>, PersistenceError>(
                PersistenceError::Malformed(cause),
            ),
            Found::Records(records) => result == Ok::<Vec<Record>, PersistenceError>(records),
        },
{
    match found {
        Found::Missing => Ok(Vec::new()),
        Found::Unreadable(cause) => Err(PersistenceError::Unreadable(cause)),
        Found::Malformed(cause) => Err(PersistenceError::Malformed(cause)),
        Found::Records(records) => Ok(records),
    }
}

} // verus!
