use ledger_core::record::{Amount, Kind, Record};
use ledger_core::snapshot::{load_outcome, Found, PersistenceError};

fn one() -> Record {
    Record {
        id: "a".to_string(),
        kind: Kind::Income,
        amount: Amount::from_bits(10.0f64.to_bits()),
        description: "d".to_string(),
        category: "c".to_string(),
        created_at: 7,
    }
}

#[test]
fn a_missing_file_is_an_empty_ledger() {
    assert_eq!(load_outcome(Found::Missing), Ok(vec![]));
}

#[test]
fn the_records_of_the_file_are_the_ledger() {
    assert_eq!(load_outcome(Found::Records(vec![one(), one()])), Ok(vec![one(), one()]));
    assert_eq!(load_outcome(Found::Records(vec![])), Ok(vec![]));
}

#[test]
fn an_unreadable_file_is_a_failure() {
    let failure = load_outcome(Found::Unreadable("denied".to_string())).unwrap_err();
    assert_eq!(failure, PersistenceError::Unreadable("denied".to_string()));
    assert_eq!(failure.message(), "Error al leer archivo de datos: denied");
}

#[test]
fn a_malformed_file_is_a_failure() {
    let failure = load_outcome(Found::Malformed("line 1".to_string())).unwrap_err();
    assert_eq!(failure, PersistenceError::Malformed("line 1".to_string()));
    assert_eq!(failure.message(), "Error al parsear datos de transacciones: line 1");
}

#[test]
fn failures_to_save_are_worded_with_their_cause() {
    assert_eq!(
        PersistenceError::DirectoryFailed("/data/app".to_string(), "denied".to_string()).message(),
        "Falló la creación del directorio padre (/data/app): denied"
    );
    assert_eq!(
        PersistenceError::EncodingFailed("bad".to_string()).message(),
        "Falló la serialización de transacciones para guardar: bad"
    );
    assert_eq!(
        PersistenceError::WriteFailed("disk full".to_string()).message(),
        "Error al guardar transacciones: disk full"
    );
}
