use sqlite_wasm::modules::sqlite_core::protocol::{
    bind_list, envelope, exec_args, is_ready_message, listener_step, memory_open_command,
    route_reply, Command, Delivery, ListenerState, RowMode,
};
use sqlite_wasm::modules::sqlite_core::blobs::{asset_url_kind, data_url, AssetUrlKind, WASM_MIME};
use sqlite_wasm::modules::sqlite_core::text::push_base64;
use sqlite_wasm::modules::sqlite_core::bindings::{exported_bindings, GLOBAL_NAME};

fn is_uuid_v4(s: &str) -> bool {
    let b: Vec<char> = s.chars().collect();
    if b.len() != 36 {
        return false;
    }
    for (i, c) in b.iter().enumerate() {
        if i == 8 || i == 13 || i == 18 || i == 23 {
            if *c != '-' {
                return false;
            }
        } else if !(c.is_ascii_digit() || ('a'..='f').contains(c)) {
            return false;
        }
    }
    b[14] == '4' && matches!(b[19], '8' | '9' | 'a' | 'b')
}

#[test]
fn envelope_has_fresh_v4_message_id() {
    let e1 = envelope::<i64>(Command::Close { db_id: 3 });
    let e2 = envelope::<i64>(Command::Close { db_id: 3 });
    assert!(is_uuid_v4(&e1.message_id), "{}", e1.message_id);
    assert!(is_uuid_v4(&e2.message_id));
    assert_ne!(e1.message_id, e2.message_id);
    match e1.command {
        Command::Close { db_id } => assert_eq!(db_id, 3),
        _ => panic!("command changed"),
    }
}

#[test]
fn reply_routing_matches_message_id() {
    let id = "67e55044-10b1-426f-9247-bb680e5fe0c8";
    let other = Some("00000000-0000-4000-8000-000000000000".to_string());
    assert!(matches!(route_reply(id, &other, &None), Delivery::Ignore));
    assert!(matches!(route_reply(id, &None, &Some("error".into())), Delivery::Ignore));
    let mine = Some(id.to_string());
    assert!(matches!(route_reply(id, &mine, &Some("exec".into())), Delivery::Resolve));
    assert!(matches!(route_reply(id, &mine, &None), Delivery::Resolve));
    assert!(matches!(route_reply(id, &mine, &Some("error".into())), Delivery::Reject));
}

#[test]
fn listener_delivers_once_then_detaches() {
    let id = "67e55044-10b1-426f-9247-bb680e5fe0c8";
    let other = Some("00000000-0000-4000-8000-000000000000".to_string());
    let mine = Some(id.to_string());
    let (s1, a1) = listener_step(ListenerState::Waiting, id, &other, &Some("exec".into()));
    assert!(matches!(s1, ListenerState::Waiting));
    assert!(matches!(a1.delivery, Delivery::Ignore));
    assert!(!a1.detach);
    let (s2, a2) = listener_step(s1, id, &mine, &Some("exec".into()));
    assert!(matches!(s2, ListenerState::Done));
    assert!(matches!(a2.delivery, Delivery::Resolve));
    assert!(a2.detach);
    let (s3, a3) = listener_step(s2, id, &mine, &Some("exec".into()));
    assert!(matches!(s3, ListenerState::Done));
    assert!(matches!(a3.delivery, Delivery::Ignore));
    assert!(!a3.detach);
}

#[test]
fn listener_rejects_error_reply() {
    let id = "67e55044-10b1-426f-9247-bb680e5fe0c8";
    let mine = Some(id.to_string());
    let (s, a) = listener_step(ListenerState::Waiting, id, &mine, &Some("error".into()));
    assert!(matches!(s, ListenerState::Done));
    assert!(matches!(a.delivery, Delivery::Reject));
    assert!(a.detach);
}

#[test]
fn memory_open_has_no_vfs() {
    match memory_open_command::<i64>() {
        Command::Open { filename, vfs } => {
            assert_eq!(filename, ":memory:");
            assert!(vfs.is_none());
        }
        _ => panic!("expected open"),
    }
}

fn b64(data: &[u8]) -> String {
    let mut s = String::new();
    push_base64(&mut s, data);
    s
}

#[test]
fn base64_matches_rfc4648_vectors() {
    assert_eq!(b64(b""), "");
    assert_eq!(b64(b"f"), "Zg==");
    assert_eq!(b64(b"fo"), "Zm8=");
    assert_eq!(b64(b"foo"), "Zm9v");
    assert_eq!(b64(b"foob"), "Zm9vYg==");
    assert_eq!(b64(b"fooba"), "Zm9vYmE=");
    assert_eq!(b64(b"foobar"), "Zm9vYmFy");
    assert_eq!(b64(&[0xff, 0xfe, 0x00]), "//4A");
}

#[test]
fn firefox_gets_data_urls() {
    assert!(matches!(asset_url_kind(true), AssetUrlKind::Data));
    assert!(matches!(asset_url_kind(false), AssetUrlKind::Blob));
    assert_eq!(data_url(WASM_MIME, &[0, 97, 115, 109]), "data:application/wasm;base64,AGFzbQ==");
}

#[test]
fn ready_message_detection() {
    assert!(is_ready_message(&Some("sqlite3-api".into()), &Some("worker1-ready".into())));
    assert!(!is_ready_message(&Some("sqlite3-api".into()), &Some("other".into())));
    assert!(!is_ready_message(&Some("exec".into()), &Some("worker1-ready".into())));
    assert!(!is_ready_message(&None, &Some("worker1-ready".into())));
}

#[test]
fn bind_list_absent_when_empty() {
    assert!(bind_list::<i64>(vec![]).is_none());
    assert_eq!(bind_list(vec![1, 2, 3]), Some(vec![1, 2, 3]));
}

#[test]
fn exec_args_fields() {
    let a = exec_args(9, "SELECT ?", Some(RowMode::Array), Some(77i64), true, vec![5]);
    assert_eq!(a.id, 9);
    assert_eq!(a.sql, "SELECT ?");
    assert_eq!(a.row_mode.as_ref().unwrap().as_str(), "array");
    assert_eq!(a.db_id, Some(77));
    assert!(a.column_names);
    assert_eq!(a.bind, Some(vec![5]));
}

#[test]
fn bindings_table_uses_camel_case() {
    let b = exported_bindings();
    let pairs: Vec<(&str, &str)> = b.iter().map(|x| (x.export_name, x.property)).collect();
    assert_eq!(
        pairs,
        vec![
            ("initialize_worker", "initializeWorker"),
            ("open", "open"),
            ("close", "close"),
            ("exec", "exec"),
            ("query", "query")
        ]
    );
    assert_eq!(GLOBAL_NAME, "wasm");
}
