use ledger_core::commands::{
    create, delete, delete_category, rename_category, update, word, CommandError,
};
use ledger_core::error::{ErrorKind, LedgerError};
use ledger_core::ledger::Ledger;
use ledger_core::record::{Amount, Kind, Record};
use ledger_core::snapshot::PersistenceError;

fn amount(value: f64) -> Amount {
    Amount::from_bits(value.to_bits())
}

fn record(id: &str, category: &str) -> Record {
    Record {
        id: id.to_string(),
        kind: Kind::Expense,
        amount: amount(1.0),
        description: "d".to_string(),
        category: category.to_string(),
        created_at: 1,
    }
}

fn sample() -> Ledger {
    Ledger::from_records(vec![record("a", "Cafe"), record("b", "Work"), record("c", "Cafe")])
}

#[test]
fn create_command_answers_with_the_record_and_the_snapshot() {
    let mut ledger = sample();
    let done = create(&mut ledger, "Expense", amount(12.5), " Coffee ", " Cafe ").unwrap();
    assert_eq!(done.reply.kind, Kind::Expense);
    assert_eq!(done.reply.description, "Coffee");
    assert_eq!(done.reply.category, "Cafe");
    assert_eq!(done.snapshot, ledger.list());
    assert_eq!(done.snapshot.len(), 4);
    assert_eq!(done.snapshot[3], done.reply);
}

#[test]
fn create_command_reads_both_kinds() {
    let mut ledger = Ledger::new();
    assert_eq!(create(&mut ledger, "Income", amount(1.0), "x", "y").unwrap().reply.kind, Kind::Income);
    assert_eq!(
        create(&mut ledger, "Expense", amount(1.0), "x", "y").unwrap().reply.kind,
        Kind::Expense
    );
}

#[test]
fn create_command_refuses_an_unknown_kind_first() {
    let mut ledger = sample();
    let refused = create(&mut ledger, "Gift", amount(0.0), "", "").unwrap_err();
    assert_eq!(
        refused,
        CommandError {
            kind: ErrorKind::InvalidInput,
            message: "Tipo de transacción inválido".to_string()
        }
    );
    assert_eq!(ledger.list(), sample().list());
}

#[test]
fn create_command_words_each_refusal() {
    let mut ledger = sample();
    let refused = create(&mut ledger, "Income", amount(0.0), "x", "y").unwrap_err();
    assert_eq!(refused.kind, ErrorKind::InvalidInput);
    assert_eq!(refused.message, "El monto debe ser positivo.");
    let refused = create(&mut ledger, "Income", amount(1.0), " ", "y").unwrap_err();
    assert_eq!(refused.kind, ErrorKind::InvalidInput);
    assert_eq!(
        refused.message,
        "La descripción y el nombre de la tienda no pueden estar vacíos."
    );
    assert_eq!(ledger.list(), sample().list());
}

#[test]
fn update_command_answers_with_the_record_and_the_snapshot() {
    let mut ledger = sample();
    let done = update(&mut ledger, "b", "Income", amount(9.0), " pay ", " Job ").unwrap();
    assert_eq!(
        done.reply,
        Record {
            id: "b".to_string(),
            kind: Kind::Income,
            amount: amount(9.0),
            description: "pay".to_string(),
            category: "Job".to_string(),
            created_at: 1,
        }
    );
    assert_eq!(done.snapshot, ledger.list());
    assert_eq!(done.snapshot[1], done.reply);
    assert_eq!(done.snapshot.len(), 3);
}

#[test]
fn update_command_words_each_refusal() {
    let mut ledger = sample();
    let refused = update(&mut ledger, "zz", "Salary", amount(0.0), "", "").unwrap_err();
    assert_eq!(refused.kind, ErrorKind::InvalidInput);
    assert_eq!(refused.message, "Tipo de transacción inválido");
    let refused = update(&mut ledger, "zz", "Income", amount(-1.0), "", "").unwrap_err();
    assert_eq!(refused.kind, ErrorKind::InvalidInput);
    assert_eq!(refused.message, "El monto debe ser positivo.");
    let refused = update(&mut ledger, "zz", "Income", amount(1.0), "x", "").unwrap_err();
    assert_eq!(refused.kind, ErrorKind::InvalidInput);
    assert_eq!(
        refused.message,
        "La descripción y el nombre de la tienda no pueden estar vacíos."
    );
    let refused = update(&mut ledger, "zz", "Income", amount(1.0), "x", "y").unwrap_err();
    assert_eq!(refused.kind, ErrorKind::NotFound);
    assert_eq!(refused.message, "Transacción con ID zz no encontrada.");
    assert_eq!(ledger.list(), sample().list());
}

#[test]
fn delete_command_answers_with_the_snapshot() {
    let mut ledger = sample();
    let done = delete(&mut ledger, "a").unwrap();
    assert_eq!(done.snapshot, ledger.list());
    assert_eq!(done.snapshot, vec![record("b", "Work"), record("c", "Cafe")]);
}

#[test]
fn delete_command_words_the_refusal() {
    let mut ledger = sample();
    let refused = delete(&mut ledger, "zz").unwrap_err();
    assert_eq!(refused.kind, ErrorKind::NotFound);
    assert_eq!(refused.message, "Transacción con ID zz no encontrada.");
    assert_eq!(ledger.list(), sample().list());
}

#[test]
fn rename_command_answers_with_the_snapshot() {
    let mut ledger = sample();
    let done = rename_category(&mut ledger, " Cafe", "Bar ").unwrap();
    assert_eq!(done.snapshot, ledger.list());
    assert_eq!(done.snapshot, vec![record("a", "Bar"), record("b", "Work"), record("c", "Bar")]);
}

#[test]
fn rename_command_of_the_reserved_category_is_invalid_input() {
    let mut ledger = sample();
    let refused = rename_category(&mut ledger, "All Categories", "X").unwrap_err();
    assert_eq!(refused.kind, ErrorKind::InvalidInput);
    assert_eq!(refused.message, "No se puede renombrar 'All Categories'.");
    assert_eq!(ledger.list(), sample().list());
}

#[test]
fn rename_command_words_each_refusal() {
    let mut ledger = sample();
    let refused = rename_category(&mut ledger, " ", "X").unwrap_err();
    assert_eq!(refused.kind, ErrorKind::InvalidInput);
    assert_eq!(refused.message, "Los nombres de tienda no pueden estar vacíos.");
    let refused = rename_category(&mut ledger, "Cafe", "Cafe ").unwrap_err();
    assert_eq!(refused.kind, ErrorKind::InvalidInput);
    assert_eq!(refused.message, "El nuevo nombre de la tienda es el mismo que el anterior.");
    let refused = rename_category(&mut ledger, "  Zoo ", "X").unwrap_err();
    assert_eq!(refused.kind, ErrorKind::NotFound);
    assert_eq!(
        refused.message,
        "Tienda 'Zoo' no encontrada o sin transacciones para renombrar."
    );
    assert_eq!(ledger.list(), sample().list());
}

#[test]
fn delete_category_command_answers_with_the_snapshot() {
    let mut ledger = sample();
    let done = delete_category(&mut ledger, " Cafe ").unwrap();
    assert_eq!(done.snapshot, ledger.list());
    assert_eq!(done.snapshot, vec![record("b", "Work")]);
}

#[test]
fn delete_category_command_words_each_refusal() {
    let mut ledger = sample();
    let refused = delete_category(&mut ledger, "").unwrap_err();
    assert_eq!(refused.kind, ErrorKind::InvalidInput);
    assert_eq!(refused.message, "El nombre de tienda no puede estar vacío.");
    let refused = delete_category(&mut ledger, "All Categories").unwrap_err();
    assert_eq!(refused.kind, ErrorKind::InvalidInput);
    assert_eq!(refused.message, "No se puede eliminar 'All Categories'.");
    let refused = delete_category(&mut ledger, " Zoo ").unwrap_err();
    assert_eq!(refused.kind, ErrorKind::NotFound);
    assert_eq!(
        refused.message,
        "Tienda 'Zoo' no encontrada o sin transacciones para eliminar."
    );
    assert_eq!(ledger.list(), sample().list());
}

#[test]
fn delete_category_command_twice_is_not_found_the_second_time() {
    let mut ledger = sample();
    let first = delete_category(&mut ledger, "Cafe").unwrap();
    let second = delete_category(&mut ledger, "Cafe").unwrap_err();
    assert_eq!(second.kind, ErrorKind::NotFound);
    assert_eq!(ledger.list(), first.snapshot);
}

#[test]
fn word_gives_the_message_of_each_refusal() {
    assert_eq!(word(LedgerError::UnknownKind, "s"), "Tipo de transacción inválido");
    assert_eq!(word(LedgerError::SameName, "s"), "El nuevo nombre de la tienda es el mismo que el anterior.");
    assert_eq!(word(LedgerError::NoSuchRecord, "s"), "Transacción con ID s no encontrada.");
    assert_eq!(LedgerError::UnknownKind.kind(), ErrorKind::InvalidInput);
    assert_eq!(LedgerError::NonPositiveAmount.kind(), ErrorKind::InvalidInput);
    assert_eq!(LedgerError::EmptyText.kind(), ErrorKind::InvalidInput);
}

#[test]
fn a_failed_save_is_a_persistence_error() {
    let failure = PersistenceError::WriteFailed("disk full".to_string());
    assert_eq!(
        CommandError::not_persisted(&failure),
        CommandError {
            kind: ErrorKind::Persistence,
            message: "Error al guardar transacciones: disk full".to_string()
        }
    );
}

#[test]
fn a_refusal_keeps_its_class() {
    assert_eq!(CommandError::refused(LedgerError::NoSuchRecord, "x").kind, ErrorKind::NotFound);
    assert_eq!(CommandError::refused(LedgerError::SameName, "x").kind, ErrorKind::InvalidInput);
}
