use sqlite_wasm::modules::extensions::cache::Cache;
use sqlite_wasm::modules::extensions::queries::{
    cache_key, complete_optimized, convert_arrays_to_objects, create_query_args,
    create_query_args_with_columns, extract_column_names, query_array, query_optimized,
    row_to_object, set_property, OptimizedQuery, Property,
};
use sqlite_wasm::modules::sqlite_core::database::{complete_open, Database, OpenReply};
use sqlite_wasm::modules::sqlite_core::error::DbError;
use sqlite_wasm::modules::sqlite_core::protocol::{Command, RowMode};

fn pairs(o: &[Property<i64>]) -> Vec<(String, i64)> {
    o.iter().map(|p| (p.key.clone(), p.value)).collect()
}

fn cols(names: &[&str]) -> Vec<String> {
    names.iter().map(|s| s.to_string()).collect()
}

fn opened() -> Database<i64> {
    let mut db: Database<i64> = Database::new();
    complete_open(&mut db, OpenReply::Object { nested: Some(1), top: 0 }, 0);
    db
}

#[test]
fn set_property_overwrites_in_place() {
    let mut o: Vec<Property<i64>> = Vec::new();
    set_property(&mut o, "a".into(), 1);
    set_property(&mut o, "b".into(), 2);
    set_property(&mut o, "a".into(), 3);
    assert_eq!(pairs(&o), vec![("a".into(), 3), ("b".into(), 2)]);
}

#[test]
fn row_to_object_keys_by_column() {
    let o = row_to_object(&cols(&["id", "name"]), vec![1, 2]);
    assert_eq!(pairs(&o), vec![("id".into(), 1), ("name".into(), 2)]);
    // short row: missing columns left out
    let o = row_to_object(&cols(&["id", "name", "age"]), vec![1]);
    assert_eq!(pairs(&o), vec![("id".into(), 1)]);
    // long row: extra cells dropped
    let o = row_to_object(&cols(&["id"]), vec![1, 2, 3]);
    assert_eq!(pairs(&o), vec![("id".into(), 1)]);
    // duplicate column names: last cell wins, first position kept
    let o = row_to_object(&cols(&["x", "y", "x"]), vec![1, 2, 3]);
    assert_eq!(pairs(&o), vec![("x".into(), 3), ("y".into(), 2)]);
}

#[test]
fn convert_skips_non_array_rows() {
    let rows = Some(vec![Some(vec![1, 10]), None, Some(vec![2, 20])]);
    let out = convert_arrays_to_objects(rows, cols(&["id", "v"]));
    assert_eq!(out.len(), 2);
    assert_eq!(pairs(&out[0]), vec![("id".into(), 1), ("v".into(), 10)]);
    assert_eq!(pairs(&out[1]), vec![("id".into(), 2), ("v".into(), 20)]);
    let none = convert_arrays_to_objects::<i64>(None, cols(&["id"]));
    assert!(none.is_empty());
}

#[test]
fn extract_column_names_keeps_strings() {
    assert!(extract_column_names(None).is_none());
    let names = extract_column_names(Some(vec![Some("a".into()), None, Some("b".into())]));
    assert_eq!(names, Some(cols(&["a", "b"])));
}

#[test]
fn query_array_uses_array_mode() {
    let mut db = opened();
    match query_array(&mut db, "SELECT * FROM t", vec![4]) {
        Ok(Command::Exec(a)) => {
            assert_eq!(a.id, 0);
            assert!(matches!(a.row_mode, Some(RowMode::Array)));
            assert!(!a.column_names);
            assert_eq!(a.bind, Some(vec![4]));
        }
        _ => panic!("expected exec"),
    }
    let mut closed: Database<i64> = Database::new();
    assert!(matches!(query_array(&mut closed, "SELECT 1", vec![]), Err(DbError::NotOpened)));
}

#[test]
fn query_args_builders() {
    let mut db = opened();
    let a = create_query_args(&mut db, "SELECT 1", vec![], RowMode::Object);
    assert_eq!(a.id, 0);
    assert!(matches!(a.row_mode, Some(RowMode::Object)));
    let b = create_query_args_with_columns(&mut db, "SELECT 2", vec![9]);
    assert_eq!(b.id, 1);
    assert!(b.column_names);
    assert!(matches!(b.row_mode, Some(RowMode::Array)));
    assert_eq!(b.bind, Some(vec![9]));
}

#[test]
fn optimized_query_discovers_then_uses_cached_columns() {
    let mut db = opened();
    let mut cache: Cache<Vec<String>> = Cache::new();
    let key = cache_key("SELECT * FROM users", "[]");
    assert_eq!(key, "SELECT * FROM users-[]");
    match query_optimized(&mut db, &cache, &key, "SELECT * FROM users", vec![]) {
        Ok(OptimizedQuery::Discover { request: Command::Exec(a) }) => {
            assert!(a.column_names);
            assert_eq!(a.id, 0);
        }
        _ => panic!("expected discovery"),
    }
    let objs = complete_optimized(
        &mut cache,
        key.clone(),
        Some(cols(&["id", "name"])),
        Some(vec![Some(vec![1, 2])]),
    )
    .unwrap();
    assert_eq!(pairs(&objs.result_rows[0]), vec![("id".into(), 1), ("name".into(), 2)]);
    match query_optimized(&mut db, &cache, &key, "SELECT * FROM users", vec![]) {
        Ok(OptimizedQuery::Cached { request: Command::Exec(a), columns }) => {
            assert_eq!(columns, cols(&["id", "name"]));
            assert!(!a.column_names);
            assert_eq!(a.id, 1);
        }
        _ => panic!("expected cached"),
    }
}

#[test]
fn optimized_query_without_column_names_keeps_raw_reply() {
    let mut cache: Cache<Vec<String>> = Cache::new();
    let r = complete_optimized::<i64>(&mut cache, "k".into(), None, None);
    assert!(r.is_none());
    assert!(cache.get("k").is_none());
    let mut closed: Database<i64> = Database::new();
    assert!(matches!(
        query_optimized(&mut closed, &cache, "k", "SELECT 1", vec![]),
        Err(DbError::NotOpened)
    ));
}

#[test]
fn cache_read_after_write() {
    let mut c: Cache<i32> = Cache::new();
    assert!(c.get("a").is_none());
    c.insert("a".into(), 1);
    c.insert("b".into(), 2);
    c.insert("a".into(), 3);
    assert_eq!(c.get("a"), Some(&3));
    assert_eq!(c.get("b"), Some(&2));
    c.clear();
    assert!(c.get("a").is_none());
}
