//! The commands that the host calls: each takes what comes over the
//! boundary, has the ledger do the work, and answers with the result and
//! the snapshot to write, or with a refusal in words.

use vstd::prelude::*;
use vstd::string::StringExecFns;
use crate::error::{ErrorKind, LedgerError};
use crate::fresh::is_random_uuid_text;
use crate::ledger::{reserved_category_name, Ledger};
use crate::model::{
    delete_category_refusal, field_refusal, has_id, inserted, position_of, rename_refusal, renamed,
    replace_refusal, replaced, reserved_category, without_category, without_id,
};
use crate::record::{views, Amount, Kind, Record, RecordView};
use crate::snapshot::PersistenceError;
use crate::text::{trim, trimmed};

verus! {

/// A change that the ledger has made: the answer to the caller, and the
/// whole collection as it stands after the change, to be written out once
/// the ledger is free again. A refusal comes without one: nothing changed,
/// nothing is written.
#[derive(Debug, PartialEq, Eq)]
pub struct Committed<T> {
    pub reply: T,
    pub snapshot: Vec<Record>,
}

/// A refusal as the host sees it: its class, and what to tell the user.
#[derive(Debug, PartialEq, Eq)]
pub struct CommandError {
    pub kind: ErrorKind,
    pub message: String,
}

/// What the user is told of a refusal. `subject` is the id or the category
/// that was asked for; only the refusals that name it use it.
pub open spec fn wording(reason: LedgerError, subject: Seq<char>) -> Seq<char> {
    match reason {
        LedgerError::UnknownKind => "Tipo de transacción inválido"@,
        LedgerError::NonPositiveAmount => "El monto debe ser positivo."@,
        LedgerError::EmptyText => "La descripción y el nombre de la tienda no pueden estar vacíos."@,
        LedgerError::EmptyRenameOperand => "Los nombres de tienda no pueden estar vacíos."@,
        LedgerError::EmptyDeleteOperand => "El nombre de tienda no puede estar vacío."@,
        LedgerError::ReservedRename => "No se puede renombrar '"@ + reserved_category() + "'."@,
        LedgerError::ReservedDelete => "No se puede eliminar '"@ + reserved_category() + "'."@,
        LedgerError::SameName => "El nuevo nombre de la tienda es el mismo que el anterior."@,
        LedgerError::NoSuchRecord => "Transacción con ID "@ + subject + " no encontrada."@,
        LedgerError::NothingToRename => "Tienda '"@ + subject
            + "' no encontrada o sin transacciones para renombrar."@,
        LedgerError::NothingToDelete => "Tienda '"@ + subject
            + "' no encontrada o sin transacciones para eliminar."@,
    }
}

/// What the user is told of a refusal.
pub fn word(reason: LedgerError, subject: &str) -> (message: String)
    ensures
        message@ == wording(reason, subject@),
{
    match reason {
        LedgerError::UnknownKind => String::from_str("Tipo de transacción inválido"),
        LedgerError::NonPositiveAmount => String::from_str("El monto debe ser positivo."),
        LedgerError::EmptyText => String::from_str(
            "La descripción y el nombre de la tienda no pueden estar vacíos.",
        ),
        LedgerError::EmptyRenameOperand => String::from_str(
            "Los nombres de tienda no pueden estar vacíos.",
        ),
        LedgerError::EmptyDeleteOperand => String::from_str(
            "El nombre de tienda no puede estar vacío.",
        ),
        LedgerError::ReservedRename => String::from_str("No se puede renombrar '").concat(
            reserved_category_name(),
        ).concat("'."),
        LedgerError::ReservedDelete => String::from_str("No se puede eliminar '").concat(
            reserved_category_name(),
        ).concat("'."),
        LedgerError::SameName => String::from_str(
            "El nuevo nombre de la tienda es el mismo que el anterior.",
        ),
        LedgerError::NoSuchRecord => String::from_str("Transacción con ID ").concat(subject).concat(
            " no encontrada.",
        ),
        LedgerError::NothingToRename => String::from_str("Tienda '").concat(subject).concat(
            "' no encontrada o sin transacciones para renombrar.",
        ),
        LedgerError::NothingToDelete => String::from_str("Tienda '").concat(subject).concat(
            "' no encontrada o sin transacciones para eliminar.",
        ),
    }
}

impl CommandError {
    /// The refusal of the ledger, as the host sees it.
    pub fn refused(reason: LedgerError, subject: &str) -> (error: CommandError)
        ensures
            error.kind == reason.kind_of(),
            error.message@ == wording(reason, subject@),
    {
        CommandError { kind: reason.kind(), message: word(reason, subject) }
    }

    /// A failure to read or write the snapshot, as the host sees it.
    pub fn not_persisted(failure: &PersistenceError) -> (error: CommandError)
        ensures
            error.kind == ErrorKind::Persistence,
            error.message@ == failure.message_of(),
    {
        CommandError { kind: ErrorKind::Persistence, message: failure.message() }
    }
}

/// Why a record of this kind tag and these fields cannot be created, if it
/// cannot: the kind is looked at first, then the amount, then the texts.
pub open spec fn create_refusal(
    kind_tag: Seq<char>,
    amount: Amount,
    description: Seq<char>,
    category: Seq<char>,
) -> Option<LedgerError> {
    if Kind::of_tag(kind_tag) is None {
        Some(LedgerError::UnknownKind)
    } else {
        field_refusal(amount, description, category)
    }
}

/// Why the record of the id cannot be updated to this kind tag and these
/// fields, if it cannot: the kind is looked at first, then the amount, then
/// the texts, then whether the record is there.
pub open spec fn update_refusal(
    s: Seq<RecordView>,
    id: Seq<char>,
    kind_tag: Seq<char>,
    amount: Amount,
    description: Seq<char>,
    category: Seq<char>,
) -> Option<LedgerError> {
    if Kind::of_tag(kind_tag) is None {
        Some(LedgerError::UnknownKind)
    } else {
        replace_refusal(s, id, amount, description, category)
    }
}

/// Creates a record from what the host hands over.
pub fn create(
    ledger: &mut Ledger,
    kind_tag: &str,
    amount: Amount,
    description: &str,
    category: &str,
) -> (result: Result<Committed<Record>, CommandError>)
    ensures
        match result {
            Ok(done) => {
                &&& create_refusal(kind_tag@, amount, trimmed(description@), trimmed(category@)) is None
                &&& is_random_uuid_text(done.reply@.id)
                &&& Some(done.reply@.kind) == Kind::of_tag(kind_tag@)
                &&& done.reply@.amount == amount
                &&& done.reply@.description == trimmed(description@)
                &&& done.reply@.category == trimmed(category@)
                &&& final(ledger)@ == inserted(old(ledger)@, done.reply@)
                &&& views(done.snapshot@) == final(ledger)@
            },
            Err(e) => {
                &&& create_refusal(kind_tag@, amount, trimmed(description@), trimmed(category@))
                    matches Some(reason)
                &&& e.kind == ErrorKind::InvalidInput
                &&& e.message@ == wording(reason, Seq::<char>::empty())
                &&& final(ledger)@ == old(ledger)@
            },
        },
{
    let kind = match Kind::parse(kind_tag) {
        Some(kind) => kind,
        None => { return Err(CommandError::refused(LedgerError::UnknownKind, "")); },
    };
    match ledger.create(kind, amount, description, category) {
        Ok(record) => Ok(Committed { reply: record, snapshot: ledger.list() }),
        Err(reason) => Err(CommandError::refused(reason, "")),
    }
}

/// Updates the record of an id from what the host hands over.
pub fn update(
    ledger: &mut Ledger,
    id: &str,
    kind_tag: &str,
    amount: Amount,
    description: &str,
    category: &str,
) -> (result: Result<Committed<Record>, CommandError>)
    ensures
        match result {
            Ok(done) => {
                &&& update_refusal(
                    old(ledger)@,
                    id@,
                    kind_tag@,
                    amount,
                    trimmed(description@),
                    trimmed(category@),
                ) is None
                &&& Kind::of_tag(kind_tag@) matches Some(kind)
                &&& final(ledger)@ == replaced(
                    old(ledger)@,
                    id@,
                    kind,
                    amount,
                    trimmed(description@),
                    trimmed(category@),
                )
                &&& done.reply@ == final(ledger)@[position_of(old(ledger)@, id@)]
                &&& views(done.snapshot@) == final(ledger)@
            },
            Err(e) => {
                &&& update_refusal(
                    old(ledger)@,
                    id@,
                    kind_tag@,
                    amount,
                    trimmed(description@),
                    trimmed(category@),
                ) matches Some(reason)
                &&& e.kind == reason.kind_of()
                &&& e.message@ == wording(reason, id@)
                &&& final(ledger)@ == old(ledger)@
            },
        },
{
    let kind = match Kind::parse(kind_tag) {
        Some(kind) => kind,
        None => { return Err(CommandError::refused(LedgerError::UnknownKind, id)); },
    };
    match ledger.update(id, kind, amount, description, category) {
        Ok(record) => Ok(Committed { reply: record, snapshot: ledger.list() }),
        Err(reason) => Err(CommandError::refused(reason, id)),
    }
}

/// Deletes the record of an id.
pub fn delete(ledger: &mut Ledger, id: &str) -> (result: Result<Committed<()>, CommandError>)
    ensures
        match result {
            Ok(done) => {
                &&& has_id(old(ledger)@, id@)
                &&& final(ledger)@ == without_id(old(ledger)@, id@)
                &&& views(done.snapshot@) == final(ledger)@
            },
            Err(e) => {
                &&& !has_id(old(ledger)@, id@)
                &&& e.kind == ErrorKind::NotFound
                &&& e.message@ == wording(LedgerError::NoSuchRecord, id@)
                &&& final(ledger)@ == old(ledger)@
            },
        },
{
    match ledger.delete(id) {
        Ok(()) => Ok(Committed { reply: (), snapshot: ledger.list() }),
        Err(reason) => Err(CommandError::refused(reason, id)),
    }
}

/// Renames a category.
pub fn rename_category(ledger: &mut Ledger, old_name: &str, new_name: &str) -> (result: Result<
    Committed<()>,
    CommandError,
>)
    ensures
        match result {
            Ok(done) => {
                &&& rename_refusal(old(ledger)@, trimmed(old_name@), trimmed(new_name@)) is None
                &&& final(ledger)@ == renamed(old(ledger)@, trimmed(old_name@), trimmed(new_name@))
                &&& views(done.snapshot@) == final(ledger)@
            },
            Err(e) => {
                &&& rename_refusal(old(ledger)@, trimmed(old_name@), trimmed(new_name@))
                    matches Some(reason)
                &&& e.kind == reason.kind_of()
                &&& e.message@ == wording(reason, trimmed(old_name@))
                &&& final(ledger)@ == old(ledger)@
            },
        },
{
    match ledger.rename_category(old_name, new_name) {
        Ok(()) => Ok(Committed { reply: (), snapshot: ledger.list() }),
        Err(reason) => Err(CommandError::refused(reason, trim(old_name))),
    }
}

/// Deletes a category with every record filed under it.
pub fn delete_category(ledger: &mut Ledger, name: &str) -> (result: Result<
    Committed<()>,
    CommandError,
>)
    ensures
        match result {
            Ok(done) => {
                &&& delete_category_refusal(old(ledger)@, trimmed(name@)) is None
                &&& final(ledger)@ == without_category(old(ledger)@, trimmed(name@))
                &&& views(done.snapshot@) == final(ledger)@
            },
            Err(e) => {
                &&& delete_category_refusal(old(ledger)@, trimmed(name@)) matches Some(reason)
                &&& e.kind == reason.kind_of()
                &&& e.message@ == wording(reason, trimmed(name@))
                &&& final(ledger)@ == old(ledger)@
            },
        },
{
    match ledger.delete_category(name) {
        Ok(()) => Ok(Committed { reply: (), snapshot: ledger.list() }),
        Err(reason) => Err(CommandError::refused(reason, trim(name))),
    }
}

} // verus!
