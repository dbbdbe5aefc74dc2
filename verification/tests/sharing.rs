use std::sync::{Arc, RwLock};

use tiny_kv::command::parse_command;
use tiny_kv::reply::Reply;
use tiny_kv::store::Store;

#[test]
fn readers_share_the_store() {
    let store = Arc::new(RwLock::new(Store::new()));
    store.write().unwrap().set("k".to_string(), "v".to_string());
    let first = store.read().unwrap();
    let second = store.read().unwrap();
    assert_eq!(first.get("k"), Some(&"v".to_string()));
    assert_eq!(second.query(&parse_command("GET k")), Some(Reply::Bulk("v".to_string())));
}

#[test]
fn writers_in_turn_leave_the_last_value() {
    let store = Arc::new(RwLock::new(Store::new()));
    for id in 0..8 {
        let handle = Arc::clone(&store);
        let command = parse_command(&format!("SET k writer-{}", id));
        assert_eq!(handle.write().unwrap().execute(command), Reply::Stored);
    }
    let found = store.read().unwrap().query(&parse_command("GET k"));
    assert_eq!(found, Some(Reply::Bulk("writer-7".to_string())));
}
