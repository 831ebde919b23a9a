use sqlite_wasm::modules::sqlite_core::blobs::{create_embedded_worker, EmbeddedAssets};
use sqlite_wasm::modules::sqlite_core::error::DbError;
use sqlite_wasm::modules::sqlite_core::worker::{
    is_firefox, pool_wait_result, ready_timeout_ms, text_contains, text_starts_with, wait_result,
    worker_script_path, ReadyWait, WorkerSlot, FIREFOX_WORKER_PATH, POOL_READY_TIMEOUT_MS,
};

const FF: &str = "Mozilla/5.0 (X11; Linux x86_64; rv:128.0) Gecko/20100101 Firefox/128.0";
const CHROME: &str =
    "Mozilla/5.0 (X11; Linux x86_64) AppleWebKit/537.36 (KHTML, like Gecko) Chrome/126.0 Safari/537.36";

#[test]
fn firefox_detection() {
    assert!(is_firefox(FF));
    assert!(!is_firefox(CHROME));
    assert!(!is_firefox(""));
    assert!(!is_firefox("firefox"));
}

#[test]
fn text_search() {
    assert!(text_contains("abcabd", "abd"));
    assert!(text_contains("abc", ""));
    assert!(!text_contains("ab", "abc"));
    assert!(text_starts_with("blob:http://x", "blob:"));
    assert!(!text_starts_with("/blob:", "blob:"));
    assert!(!text_starts_with("bl", "blob:"));
}

#[test]
fn worker_path_fallback_on_firefox_blob() {
    assert_eq!(worker_script_path("blob:abc", true), FIREFOX_WORKER_PATH);
    assert_eq!(FIREFOX_WORKER_PATH, "/static/sqlite.org/sqlite3-worker1.js");
    assert_eq!(worker_script_path("blob:abc", false), "blob:abc");
    assert_eq!(worker_script_path("/w.js", true), "/w.js");
}

#[test]
fn ready_timeouts_and_outcomes() {
    assert_eq!(ready_timeout_ms(true), 15000);
    assert_eq!(ready_timeout_ms(false), 5000);
    assert_eq!(POOL_READY_TIMEOUT_MS, 5000);
    assert!(wait_result::<i64>(ReadyWait::Ready).is_ok());
    assert!(matches!(wait_result::<i64>(ReadyWait::ChannelClosed), Err(DbError::WorkerNeverReady)));
    assert!(matches!(wait_result::<i64>(ReadyWait::TimedOut), Err(DbError::WorkerInitTimeout)));
    assert!(pool_wait_result::<i64>(ReadyWait::Ready).is_ok());
    assert!(matches!(pool_wait_result::<i64>(ReadyWait::ChannelClosed), Err(DbError::WorkerReadyTimeout)));
    assert!(matches!(pool_wait_result::<i64>(ReadyWait::TimedOut), Err(DbError::WorkerReadyTimeout)));
}

#[test]
fn worker_slot_is_filled_once() {
    let mut slot: WorkerSlot<u32> = WorkerSlot::new();
    assert!(!slot.is_initialized());
    assert!(slot.install::<i64>(1).is_ok());
    assert!(slot.is_initialized());
    assert!(matches!(slot.install::<i64>(2), Err(DbError::WorkerAlreadyInitialized)));
    assert_eq!(*slot.get_worker(), 1);
}

#[test]
fn embedded_worker_bootstrap() {
    let a = EmbeddedAssets::new("blob:w".into(), "blob:j".into(), "blob:p".into(), "blob:m".into());
    assert_eq!((a.worker_url(), a.js_url(), a.proxy_url(), a.wasm_url()), ("blob:w", "blob:j", "blob:p", "blob:m"));
    let chrome = create_embedded_worker(&a, false);
    assert_eq!(chrome.mime_type, "application/javascript");
    assert!(chrome.source.contains("'sqlite3.js': 'blob:j'"));
    assert!(chrome.source.contains("'sqlite3.wasm': 'blob:m'"));
    assert!(chrome.source.contains("'sqlite3-opfs-async-proxy.js': 'blob:p'"));
    assert!(chrome.source.contains("'sqlite3-worker1.js': 'blob:w'"));
    assert!(chrome.source.contains("\n    importScripts('blob:w');\n    "));
    assert!(chrome.source.starts_with("   \n    // MAPEAMENTO DE TODOS OS ARQUIVOS"));
    let ff = create_embedded_worker(&a, true);
    assert_eq!(ff.mime_type, "text/javascript");
    assert!(ff.source.ends_with("    import('blob:w');\n    "));
}

#[test]
fn worker_slot_becomes_ready_once_marked() {
    let mut slot: WorkerSlot<u8> = WorkerSlot::new();
    assert!(!slot.is_ready());
    slot.mark_ready();
    assert!(!slot.is_ready());
    assert!(slot.install::<i64>(7).is_ok());
    assert!(!slot.is_ready());
    slot.mark_ready();
    assert!(slot.is_ready());
    assert!(matches!(slot.install::<i64>(8), Err(DbError::WorkerAlreadyInitialized)));
    assert!(slot.is_ready());
    assert_eq!(*slot.get_worker(), 7);
}
