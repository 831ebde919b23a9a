use sqlite_wasm::modules::extensions::pool::{
    retry_delay_ms, ConnectionPool, RetryRun, RetryStep, DEFAULT_TIMEOUT_MS,
};
use sqlite_wasm::modules::sqlite_core::database::{Database};
use sqlite_wasm::modules::sqlite_core::error::DbError;
use sqlite_wasm::modules::sqlite_core::protocol::{Command, RowMode};

fn pool(n: usize) -> ConnectionPool<&'static str, i64> {
    let names = ["w0", "w1", "w2", "w3"];
    let opened: Vec<(&'static str, i64)> = (0..n).map(|i| (names[i], 100 + i as i64)).collect();
    ConnectionPool::new("app.sqlite3", opened)
}

#[test]
fn new_pool_is_all_free() {
    let p = pool(3);
    assert_eq!(
        p.stats(),
        "Pool 'app.sqlite3': 3/3 connections available (0 busy) - timeout: 30000ms"
    );
    let s = p.stats_snapshot();
    assert_eq!(s.db_name, "app.sqlite3");
    assert_eq!((s.pool_size, s.available, s.busy, s.timeout_ms), (3, 3, 0, DEFAULT_TIMEOUT_MS));
    assert_eq!(*p.worker(2), "w2");
}

#[test]
fn round_robin_acquire_and_release() {
    let mut p = pool(3);
    assert_eq!(p.get_connection(), Some(0));
    assert_eq!(p.get_connection(), Some(1));
    assert_eq!(p.get_connection(), Some(2));
    assert_eq!(p.get_connection(), None);
    assert_eq!(
        p.stats(),
        "Pool 'app.sqlite3': 0/3 connections available (3 busy) - timeout: 30000ms"
    );
    p.release(1);
    // rotation is at 4 -> starts at 1
    assert_eq!(p.get_connection(), Some(1));
    p.release(0);
    // rotation at 5 -> starts at 2 (busy), then 0
    assert_eq!(p.get_connection(), Some(0));
}

#[test]
fn finished_requests_free_their_connections() {
    let mut p = pool(2);
    let a = p.get_connection().unwrap();
    let b = p.get_connection().unwrap();
    assert_eq!(
        p.stats(),
        "Pool 'app.sqlite3': 0/2 connections available (2 busy) - timeout: 30000ms"
    );
    // one request failed, the other succeeded: both connections are free again
    p.release(a);
    p.release(b);
    assert_eq!(
        p.stats(),
        "Pool 'app.sqlite3': 2/2 connections available (0 busy) - timeout: 30000ms"
    );
}

#[test]
fn acquire_timeout_check() {
    let mut p = pool(1);
    assert!(p.acquire_timeout(30000).is_ok());
    match p.acquire_timeout(30001) {
        Err(DbError::ConnectionTimeout(ms)) => assert_eq!(ms, 30000),
        _ => panic!("expected timeout"),
    }
    p.set_timeout(10);
    assert!(matches!(p.acquire_timeout(11), Err(DbError::ConnectionTimeout(10))));
    assert!(p.stats().ends_with("timeout: 10ms"));
}

#[test]
fn pooled_requests_carry_connection_db_id() {
    let p = pool(2);
    let mut db: Database<i64> = Database::new();
    match p.query(&mut db, 1, "SELECT * FROM users", vec![3]) {
        Command::Exec(a) => {
            assert_eq!(a.id, 0);
            assert_eq!(a.db_id, Some(101));
            assert!(matches!(a.row_mode, Some(RowMode::Object)));
            assert_eq!(a.bind, Some(vec![3]));
        }
        _ => panic!("expected exec"),
    }
    match p.query_array(&mut db, 0, "SELECT 1", vec![]) {
        Command::Exec(a) => {
            assert_eq!(a.id, 1);
            assert_eq!(a.db_id, Some(100));
            assert!(matches!(a.row_mode, Some(RowMode::Array)));
        }
        _ => panic!("expected exec"),
    }
    match p.exec(&mut db, 0, "DELETE FROM t", vec![]) {
        Command::Exec(a) => assert!(a.row_mode.is_none()),
        _ => panic!("expected exec"),
    }
    match p.health_check_request(&mut db, 1) {
        Command::Exec(a) => {
            assert_eq!(a.sql, "SELECT 1");
            assert_eq!(a.db_id, Some(101));
            assert!(a.bind.is_none());
        }
        _ => panic!("expected exec"),
    }
    match p.close_request(0) {
        Command::Close { db_id } => assert_eq!(db_id, 100),
        _ => panic!("expected close"),
    }
}

#[test]
fn open_request_and_db_id_extraction() {
    match ConnectionPool::<&str, i64>::open_request("app.sqlite3") {
        Command::Open { filename, vfs } => {
            assert_eq!(filename, "app.sqlite3");
            assert_eq!(vfs.as_deref(), Some("opfs"));
        }
        _ => panic!("expected open"),
    }
    assert_eq!(ConnectionPool::<&str, i64>::extract_db_id(Some(4)).ok(), Some(4));
    match ConnectionPool::<&str, i64>::extract_db_id(None) {
        Err(e) => assert_eq!(e.message().unwrap(), "Could not extract database ID"),
        _ => panic!("expected error"),
    }
}

#[test]
fn retry_delays_double_and_cap() {
    let d: Vec<i32> = (1..=8).map(retry_delay_ms).collect();
    assert_eq!(d, vec![100, 200, 400, 800, 1600, 2000, 2000, 2000]);
    assert_eq!(retry_delay_ms(40), 2000);
}

#[test]
fn retry_returns_first_success() {
    let (mut run, step) = RetryRun::<&str>::start::<i64>(3);
    assert!(matches!(step, RetryStep::Attempt(1)));
    match run.on_attempt::<i64>(Err("busy")) {
        RetryStep::Sleep { attempt, delay_ms } => assert_eq!((attempt, delay_ms), (1, 100)),
        _ => panic!("expected sleep"),
    }
    assert!(matches!(run.on_sleep::<i64>(Ok(())), RetryStep::Attempt(2)));
    assert!(matches!(run.on_attempt::<i64>(Ok(9)), RetryStep::Done(Ok(9))));
}

#[test]
fn retry_gives_up_with_last_error() {
    let (mut run, _) = RetryRun::<&str>::start::<i64>(2);
    let _ = run.on_attempt::<i64>(Err("first"));
    assert!(matches!(run.on_sleep::<i64>(Ok(())), RetryStep::Attempt(2)));
    match run.on_attempt::<i64>(Err("second")) {
        RetryStep::Sleep { attempt, delay_ms } => assert_eq!((attempt, delay_ms), (2, 200)),
        _ => panic!("expected sleep"),
    }
    assert!(matches!(run.on_sleep::<i64>(Ok(())), RetryStep::Done(Err("second"))));
}

#[test]
fn retry_stops_when_pause_fails() {
    let (mut run, _) = RetryRun::<&str>::start::<i64>(5);
    let _ = run.on_attempt::<i64>(Err("q"));
    assert!(matches!(run.on_sleep::<i64>(Err("timer")), RetryStep::Done(Err("timer"))));
}
