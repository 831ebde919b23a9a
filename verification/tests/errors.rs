use sqlite_wasm::modules::sqlite_core::error::DbError;
use sqlite_wasm::modules::sqlite_core::text::decimal_string;

#[test]
fn decimal_rendering() {
    assert_eq!(decimal_string(0), "0");
    assert_eq!(decimal_string(7), "7");
    assert_eq!(decimal_string(10), "10");
    assert_eq!(decimal_string(30000), "30000");
    assert_eq!(decimal_string(u64::MAX), u64::MAX.to_string());
}

#[test]
fn error_messages() {
    let cases: Vec<(DbError<i64>, &str)> = vec![
        (DbError::NotOpened, "Database not opened. Call open() first."),
        (DbError::RowNotArray, "Each row must be an array"),
        (DbError::NoDatabaseId, "Could not extract database ID"),
        (DbError::ConnectionTimeout(30000), "Connection timeout after 30000ms"),
        (DbError::ConnectionTimeout(0), "Connection timeout after 0ms"),
        (DbError::WorkerNeverReady, "Worker never ready"),
        (DbError::WorkerInitTimeout, "Worker initialization timeout"),
        (DbError::WorkerReadyTimeout, "Worker ready timeout"),
        (DbError::WorkerAlreadyInitialized, "Worker already initialized"),
    ];
    for (e, text) in cases {
        assert_eq!(e.message().unwrap(), text);
    }
    assert!(DbError::Worker(5i64).message().is_none());
}
