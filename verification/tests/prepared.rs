use sqlite_wasm::modules::extensions::cache::Cache;
use sqlite_wasm::modules::extensions::prepared::{extract_stmt_id, PrepareStep, PreparedStatement};
use sqlite_wasm::modules::sqlite_core::database::{complete_open, next_message_id, Database, OpenReply};
use sqlite_wasm::modules::sqlite_core::error::DbError;
use sqlite_wasm::modules::sqlite_core::protocol::Command;

fn opened() -> Database<i64> {
    let mut db: Database<i64> = Database::new();
    complete_open(&mut db, OpenReply::Object { nested: Some(1), top: 0 }, 0);
    db
}

#[test]
fn stmt_id_extraction() {
    assert_eq!(extract_stmt_id(Some(Some(12)), 3), 12);
    assert_eq!(extract_stmt_id(Some(None), 3), 3);
    assert_eq!(extract_stmt_id(None, 3), 3);
}

#[test]
fn prepare_sends_once_then_reuses_cache() {
    let mut db = opened();
    let mut cache: Cache<i32> = Cache::new();
    let stmt = match PreparedStatement::prepare(&mut db, &cache, "SELECT ?") {
        Ok(PrepareStep::Send { request: Command::Prepare { statement_id, sql }, default_id }) => {
            assert_eq!(statement_id, 0);
            assert_eq!(default_id, 0);
            assert_eq!(sql, "SELECT ?");
            PreparedStatement::complete_prepare(&mut cache, "SELECT ?", Some(Some(41)), default_id)
        }
        _ => panic!("expected a prepare request"),
    };
    // second prepare is served from the cache and takes no id
    match PreparedStatement::prepare(&mut db, &cache, "SELECT ?") {
        Ok(PrepareStep::Ready(_)) => {}
        _ => panic!("expected the cached statement"),
    }
    assert_eq!(next_message_id(&mut db), 1);
    match stmt.execute(&mut db, vec![5]) {
        Ok(Command::Execute { id, stmt_id, bind }) => {
            assert_eq!(id, 2);
            assert_eq!(stmt_id, 41);
            assert_eq!(bind, Some(vec![5]));
        }
        _ => panic!("expected execute"),
    }
    match stmt.query(&mut db, vec![]) {
        Ok(Command::Execute { id, stmt_id, bind }) => {
            assert_eq!(id, 3);
            assert_eq!(stmt_id, 41);
            assert!(bind.is_none());
        }
        _ => panic!("expected execute"),
    }
    PreparedStatement::clear_cache(&mut cache);
    assert!(cache.get("SELECT ?").is_none());
}

#[test]
fn prepare_falls_back_to_request_id() {
    let mut cache: Cache<i32> = Cache::new();
    let _ = PreparedStatement::complete_prepare(&mut cache, "SELECT 2", None, 17);
    assert_eq!(cache.get("SELECT 2"), Some(&17));
}

#[test]
fn prepared_refused_when_closed() {
    let mut db: Database<i64> = Database::new();
    let cache: Cache<i32> = Cache::new();
    assert!(matches!(
        PreparedStatement::prepare(&mut db, &cache, "SELECT 1"),
        Err(DbError::NotOpened)
    ));
    let mut opened_db = opened();
    let mut c: Cache<i32> = Cache::new();
    let stmt = PreparedStatement::complete_prepare(&mut c, "SELECT 1", Some(Some(1)), 0);
    let _ = &mut opened_db;
    assert!(matches!(stmt.execute(&mut db, vec![]), Err(DbError::NotOpened)));
}

#[test]
fn query_reply_shapes_rows() {
    let r = PreparedStatement::query_reply(
        Some(vec![Some("a".to_string()), Some("b".to_string())]),
        Some(vec![Some(vec![1i64, 2])]),
    )
    .unwrap();
    assert_eq!(r.result_rows.len(), 1);
    assert_eq!(r.result_rows[0][0].key, "a");
    assert_eq!(r.result_rows[0][1].value, 2);
    assert!(PreparedStatement::query_reply::<i64>(None, None).is_none());
}

fn stmt_id_of(s: &PreparedStatement, db: &mut Database<i64>) -> i32 {
    match s.execute(db, vec![]) {
        Ok(Command::Execute { stmt_id, .. }) => stmt_id,
        _ => panic!("expected execute"),
    }
}

#[test]
fn prepared_id_survives_other_prepares() {
    let mut db = opened();
    let mut cache: Cache<i32> = Cache::new();
    let a = "INSERT INTO users (name) VALUES (?)";
    let b = "SELECT * FROM users";
    let first = match PreparedStatement::prepare(&mut db, &cache, a) {
        Ok(PrepareStep::Send { default_id, .. }) => {
            PreparedStatement::complete_prepare(&mut cache, a, Some(Some(40)), default_id)
        }
        _ => panic!("expected a prepare request"),
    };
    match PreparedStatement::prepare(&mut db, &cache, b) {
        Ok(PrepareStep::Send { default_id, .. }) => {
            PreparedStatement::complete_prepare(&mut cache, b, Some(Some(41)), default_id);
        }
        _ => panic!("expected a prepare request"),
    }
    let mut probe = opened();
    assert_eq!(stmt_id_of(&first, &mut probe), 40);
    // the two prepare requests took ids 0 and 1; the reuse takes none
    let again = match PreparedStatement::prepare(&mut db, &cache, a) {
        Ok(PrepareStep::Ready(s)) => s,
        _ => panic!("expected the cached statement"),
    };
    assert_eq!(next_message_id(&mut db), 2);
    assert_eq!(stmt_id_of(&again, &mut probe), 40);
}
