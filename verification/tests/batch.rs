use sqlite_wasm::modules::extensions::batch::{
    chunk_size_or_default, insert_batch, insert_batch_chunked, js_array_to_vec, BatchStatement,
    BatchStep, DEFAULT_CHUNK_SIZE,
};
use sqlite_wasm::modules::sqlite_core::database::{complete_open, Database, OpenReply};
use sqlite_wasm::modules::sqlite_core::error::DbError;

fn opened() -> Database<i64> {
    let mut db: Database<i64> = Database::new();
    complete_open(&mut db, OpenReply::Object { nested: Some(1), top: 0 }, 0);
    db
}

fn label(s: &BatchStep<i64>) -> String {
    match s {
        BatchStep::Run(BatchStatement::Begin) => "BEGIN".into(),
        BatchStep::Run(BatchStatement::Row(p)) => format!("ROW{:?}", p),
        BatchStep::Run(BatchStatement::Commit) => "COMMIT".into(),
        BatchStep::Run(BatchStatement::Rollback) => "ROLLBACK".into(),
        BatchStep::Done(Ok(())) => "OK".into(),
        BatchStep::Done(Err(DbError::Worker(v))) => format!("ERR{}", v),
        BatchStep::Done(Err(_)) => "ERR".into(),
    }
}

/// Runs a batch, failing the statements whose position (0-based, in the order
/// sent) is listed in `fail` with `Worker(position)`.
fn drive(db: &Database<i64>, rows: Vec<Vec<i64>>, chunk: Option<usize>, fail: &[usize]) -> Vec<String> {
    let (mut run, mut step) = match chunk {
        None => insert_batch(db, rows),
        Some(c) => insert_batch_chunked(db, rows, c),
    };
    let mut trace = vec![label(&step)];
    let mut n = 0;
    while let BatchStep::Run(_) = step {
        let outcome = if fail.contains(&n) { Err(DbError::Worker(n as i64)) } else { Ok(()) };
        n += 1;
        step = run.on_result(outcome);
        trace.push(label(&step));
    }
    trace
}

#[test]
fn batch_runs_in_one_transaction() {
    let t = drive(&opened(), vec![vec![1], vec![2], vec![3]], None, &[]);
    assert_eq!(t, vec!["BEGIN", "ROW[1]", "ROW[2]", "ROW[3]", "COMMIT", "OK"]);
}

#[test]
fn chunked_batch_commits_per_chunk() {
    let t = drive(&opened(), vec![vec![1], vec![2], vec![3]], Some(2), &[]);
    assert_eq!(
        t,
        vec!["BEGIN", "ROW[1]", "ROW[2]", "COMMIT", "BEGIN", "ROW[3]", "COMMIT", "OK"]
    );
    let single = drive(&opened(), vec![vec![1], vec![2]], Some(500), &[]);
    assert_eq!(single, vec!["BEGIN", "ROW[1]", "ROW[2]", "COMMIT", "OK"]);
}

#[test]
fn empty_batch_succeeds_without_statements() {
    assert_eq!(drive(&opened(), vec![], None, &[]), vec!["OK"]);
    assert_eq!(drive(&opened(), vec![], Some(3), &[]), vec!["OK"]);
}

#[test]
fn batch_refused_when_closed() {
    let db: Database<i64> = Database::new();
    let (_, step) = insert_batch(&db, vec![vec![1]]);
    assert!(matches!(step, BatchStep::Done(Err(DbError::NotOpened))));
    let (_, step) = insert_batch_chunked(&db, vec![], 2);
    assert!(matches!(step, BatchStep::Done(Err(DbError::NotOpened))));
}

#[test]
fn failed_row_rolls_back_and_returns_row_error() {
    // statements: 0 BEGIN, 1 ROW[1], 2 ROW[2] (fails), 3 ROLLBACK
    let t = drive(&opened(), vec![vec![1], vec![2], vec![3]], None, &[2]);
    assert_eq!(t, vec!["BEGIN", "ROW[1]", "ROW[2]", "ROLLBACK", "ERR2"]);
}

#[test]
fn failed_rollback_returns_rollback_error() {
    let t = drive(&opened(), vec![vec![1]], None, &[1, 2]);
    assert_eq!(t, vec!["BEGIN", "ROW[1]", "ROLLBACK", "ERR2"]);
}

#[test]
fn failed_begin_or_commit_ends_batch() {
    let t = drive(&opened(), vec![vec![1]], None, &[0]);
    assert_eq!(t, vec!["BEGIN", "ERR0"]);
    let t = drive(&opened(), vec![vec![1]], None, &[2]);
    assert_eq!(t, vec!["BEGIN", "ROW[1]", "COMMIT", "ERR2"]);
    // a failure in the second chunk leaves the first committed
    let t = drive(&opened(), vec![vec![1], vec![2]], Some(1), &[4]);
    assert_eq!(t, vec!["BEGIN", "ROW[1]", "COMMIT", "BEGIN", "ROW[2]", "ROLLBACK", "ERR4"]);
}

#[test]
fn control_statement_sql() {
    assert_eq!(BatchStatement::<i64>::Begin.control_sql(), Some("BEGIN IMMEDIATE TRANSACTION"));
    assert_eq!(BatchStatement::<i64>::Commit.control_sql(), Some("COMMIT"));
    assert_eq!(BatchStatement::<i64>::Rollback.control_sql(), Some("ROLLBACK"));
    assert_eq!(BatchStatement::Row(vec![1i64]).control_sql(), None);
}

#[test]
fn rows_from_javascript_must_be_arrays() {
    let ok = js_array_to_vec(vec![Some(vec![1i64, 2]), Some(vec![])]);
    assert_eq!(ok.ok().unwrap(), vec![vec![1, 2], vec![]]);
    let bad = js_array_to_vec(vec![Some(vec![1i64]), None]);
    assert!(matches!(bad, Err(DbError::RowNotArray)));
}

#[test]
fn default_chunk_size() {
    assert_eq!(DEFAULT_CHUNK_SIZE, 500);
    assert_eq!(chunk_size_or_default(None), 500);
    assert_eq!(chunk_size_or_default(Some(7)), 7);
}

#[test]
fn zero_chunk_size_is_answered_without_rows_or_database() {
    let closed: Database<i64> = Database::new();
    assert_eq!(drive(&closed, vec![vec![1]], Some(0), &[]), vec!["ERR".to_string()]);
    let db = opened();
    assert_eq!(drive(&db, vec![], Some(0), &[]), vec!["OK".to_string()]);
}
