use sqlite_wasm::modules::sqlite_core::database::{
    close, complete_open, db_id, exec, get_db_uid, is_db_open, is_open, next_message_id,
    on_open_reply, open, query, Database, OpenReply, OpenStage, OpenStep,
};
use sqlite_wasm::modules::sqlite_core::error::DbError;
use sqlite_wasm::modules::sqlite_core::protocol::{Command, RowMode};

fn opened(id: i64) -> Database<i64> {
    let mut db: Database<i64> = Database::new();
    let plan = open(&mut db, "app.sqlite3");
    assert!(plan.close_first.is_none());
    complete_open(&mut db, OpenReply::Object { nested: Some(id), top: -1 }, 0);
    db
}

#[test]
fn new_session_is_closed() {
    let db: Database<i64> = Database::new();
    assert!(!is_db_open(&db));
    assert!(!is_open(&db));
    assert!(get_db_uid(&db).is_none());
    assert_eq!(*db_id(&db, &-99), -99);
}

#[test]
fn exec_refused_when_closed() {
    let mut db: Database<i64> = Database::new();
    match exec(&mut db, "CREATE TABLE t (x)", vec![1, 2]) {
        Err(DbError::NotOpened) => {}
        _ => panic!("expected NotOpened"),
    }
    match query(&mut db, "SELECT 1", vec![]) {
        Err(e) => assert_eq!(e.message().unwrap(), "Database not opened. Call open() first."),
        _ => panic!("expected an error"),
    }
    // nothing was numbered
    assert_eq!(next_message_id(&mut db), 0);
}

#[test]
fn open_sends_opfs_open_and_records_nested_id() {
    let mut db: Database<i64> = Database::new();
    let plan = open(&mut db, "myapp.sqlite3");
    assert!(plan.close_first.is_none());
    match plan.open {
        Command::Open { filename, vfs } => {
            assert_eq!(filename, "myapp.sqlite3");
            assert_eq!(vfs.as_deref(), Some("opfs"));
        }
        _ => panic!("expected open"),
    }
    assert!(!is_open(&db));
    complete_open(&mut db, OpenReply::Object { nested: Some(7), top: 3 }, 0);
    assert!(is_open(&db));
    assert_eq!(get_db_uid(&db), Some(&7));
    assert_eq!(*db_id(&db, &0), 7);
}

#[test]
fn open_reply_falls_back_to_top_level_then_null() {
    let mut db: Database<i64> = Database::new();
    complete_open(&mut db, OpenReply::Object { nested: None, top: 3 }, 0);
    assert_eq!(get_db_uid(&db), Some(&3));
    let mut db2: Database<i64> = Database::new();
    complete_open(&mut db2, OpenReply::NotObject, -1);
    assert!(is_open(&db2));
    assert_eq!(get_db_uid(&db2), Some(&-1));
}

#[test]
fn reopening_closes_the_open_database_first() {
    let mut db = opened(42);
    let plan = open(&mut db, "other.sqlite3");
    match plan.close_first {
        Some(Command::Close { db_id }) => assert_eq!(db_id, 42),
        _ => panic!("expected close of the old database"),
    }
    assert!(!is_open(&db));
}

#[test]
fn close_forgets_the_database() {
    let mut db = opened(5);
    match close(&mut db) {
        Some(Command::Close { db_id }) => assert_eq!(db_id, 5),
        _ => panic!("expected close"),
    }
    assert!(!is_open(&db));
    assert!(close(&mut db).is_none());
    assert!(matches!(exec(&mut db, "SELECT 1", vec![]), Err(DbError::NotOpened)));
}

#[test]
fn statements_are_numbered_consecutively() {
    let mut db = opened(1);
    let a = exec(&mut db, "INSERT INTO users VALUES (?, ?)", vec![1, 2]).ok().unwrap();
    let b = query(&mut db, "SELECT * FROM users", vec![]).ok().unwrap();
    match (a, b) {
        (Command::Exec(a), Command::Exec(b)) => {
            assert_eq!(a.id, 0);
            assert_eq!(b.id, 1);
            assert_eq!(a.sql, "INSERT INTO users VALUES (?, ?)");
            assert!(a.row_mode.is_none());
            assert_eq!(a.bind, Some(vec![1, 2]));
            assert!(a.db_id.is_none());
            assert!(!a.column_names);
            assert!(matches!(b.row_mode, Some(RowMode::Object)));
            assert_eq!(b.row_mode.unwrap().as_str(), "object");
            assert!(b.bind.is_none());
        }
        _ => panic!("expected exec commands"),
    }
    assert_eq!(next_message_id(&mut db), 2);
}

#[test]
fn command_types() {
    let mut db = opened(1);
    let c = exec(&mut db, "SELECT 1", vec![]).ok().unwrap();
    assert_eq!(c.message_type(), "exec");
    let o: Command<i64> = open(&mut db, "x").open;
    assert_eq!(o.message_type(), "open");
    let cl: Command<i64> = Command::Close { db_id: 1 };
    assert_eq!(cl.message_type(), "close");
}

#[test]
fn opfs_refusal_falls_back_to_memory_only() {
    let mut db: Database<i64> = Database::new();
    let plan = open(&mut db, "app.sqlite3");
    assert!(plan.close_first.is_none());
    let step = on_open_reply(&mut db, OpenStage::Persistent, Err(99), 0);
    assert!(!is_open(&db));
    let (stage, command) = match step {
        OpenStep::Send { stage, command } => (stage, command),
        _ => panic!("expected the memory-only attempt"),
    };
    assert!(matches!(stage, OpenStage::MemoryOnly));
    match command {
        Command::Open { filename, vfs } => {
            assert_eq!(filename, ":memory:");
            assert!(vfs.is_none());
        }
        _ => panic!("expected open"),
    }
    let done = on_open_reply(&mut db, stage, Ok(OpenReply::Object { nested: Some(5), top: 0 }), 0);
    assert!(matches!(done, OpenStep::Finished(Ok(()))));
    assert!(is_open(&db));
    assert_eq!(get_db_uid(&db), Some(&5));
}

#[test]
fn opfs_open_reply_opens_at_once() {
    let mut db: Database<i64> = Database::new();
    let _ = open(&mut db, "app.sqlite3");
    let done = on_open_reply(&mut db, OpenStage::Persistent, Ok(OpenReply::NotObject), -1);
    assert!(matches!(done, OpenStep::Finished(Ok(()))));
    assert_eq!(get_db_uid(&db), Some(&-1));
}

#[test]
fn refused_memory_open_fails_with_worker_error() {
    let mut db: Database<i64> = Database::new();
    let done = on_open_reply(&mut db, OpenStage::MemoryOnly, Err(42), 0);
    assert!(matches!(done, OpenStep::Finished(Err(DbError::Worker(42)))));
    assert!(!is_open(&db));
}

#[test]
fn open_state_follows_last_open_or_close() {
    let mut db: Database<i64> = Database::new();
    assert!(!is_db_open(&db));
    let _ = open(&mut db, "a.sqlite3");
    let _ = on_open_reply(&mut db, OpenStage::Persistent, Ok(OpenReply::NotObject), 1);
    assert!(is_db_open(&db));
    let _ = close(&mut db);
    assert!(!is_db_open(&db));
    // an open that fails twice leaves the session closed
    let _ = open(&mut db, "b.sqlite3");
    let _ = on_open_reply(&mut db, OpenStage::Persistent, Err(1), 0);
    let _ = on_open_reply(&mut db, OpenStage::MemoryOnly, Err(2), 0);
    assert!(!is_db_open(&db));
    let _ = open(&mut db, "c.sqlite3");
    let _ = on_open_reply(&mut db, OpenStage::Persistent, Ok(OpenReply::NotObject), 3);
    assert!(is_db_open(&db));
    // none of this numbered a statement
    assert_eq!(next_message_id(&mut db), 0);
}
