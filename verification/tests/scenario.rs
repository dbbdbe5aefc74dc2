use tiny_kv::dispatch::handle_command;
use tiny_kv::reply::greeting;
use tiny_kv::store::Store;

#[test]
fn session_walkthrough() {
    let mut store = Store::new();
    assert_eq!(greeting(), "+TinyKV ready\r\n");
    assert_eq!(handle_command("SET foo bar", &mut store), "+OK\r\n");
    assert_eq!(handle_command("GET foo", &mut store), "$3\r\nbar\r\n");
    assert_eq!(handle_command("DEL foo", &mut store), ":1\r\n");
    assert_eq!(handle_command("GET foo", &mut store), "$-1\r\n");
    assert_eq!(handle_command("GET foo", &mut store), "$-1\r\n");
    assert_eq!(handle_command("DEL foo", &mut store), ":0\r\n");
    assert_eq!(handle_command("bogus line", &mut store), "-ERR unknown command\r\n");
}

#[test]
fn round_trip_returns_the_value() {
    let mut store = Store::new();
    assert_eq!(handle_command("SET k hello world", &mut store), "+OK\r\n");
    assert_eq!(handle_command("GET k", &mut store), "$11\r\nhello world\r\n");
}

#[test]
fn round_trip_of_the_empty_value() {
    let mut store = Store::new();
    assert_eq!(handle_command("SET k ", &mut store), "+OK\r\n");
    assert_eq!(handle_command("GET k", &mut store), "$0\r\n\r\n");
}

#[test]
fn round_trip_of_the_empty_key() {
    let mut store = Store::new();
    assert_eq!(handle_command("SET  v", &mut store), "+OK\r\n");
    assert_eq!(handle_command("GET ", &mut store), "$1\r\nv\r\n");
    assert_eq!(handle_command("DEL ", &mut store), ":1\r\n");
}

#[test]
fn round_trip_counts_bytes_not_characters() {
    let mut store = Store::new();
    assert_eq!(handle_command("SET k h\u{e9}llo \u{4e16}\u{754c}", &mut store), "+OK\r\n");
    assert_eq!(
        handle_command("GET k", &mut store),
        "$13\r\nh\u{e9}llo \u{4e16}\u{754c}\r\n"
    );
}

#[test]
fn lookup_of_a_key_never_set_is_absent() {
    let mut store = Store::new();
    assert_eq!(handle_command("GET missing", &mut store), "$-1\r\n");
    assert_eq!(handle_command("SET other 1", &mut store), "+OK\r\n");
    assert_eq!(handle_command("GET missing", &mut store), "$-1\r\n");
}

#[test]
fn lookup_after_removal_is_absent() {
    let mut store = Store::new();
    handle_command("SET k v", &mut store);
    handle_command("DEL k", &mut store);
    assert_eq!(handle_command("GET k", &mut store), "$-1\r\n");
}

#[test]
fn second_removal_finds_nothing() {
    let mut store = Store::new();
    handle_command("SET k v", &mut store);
    assert_eq!(handle_command("DEL k", &mut store), ":1\r\n");
    assert_eq!(handle_command("DEL k", &mut store), ":0\r\n");
}

#[test]
fn removal_leaves_other_keys() {
    let mut store = Store::new();
    handle_command("SET a 1", &mut store);
    handle_command("SET b 2", &mut store);
    assert_eq!(handle_command("DEL a", &mut store), ":1\r\n");
    assert_eq!(handle_command("GET b", &mut store), "$1\r\n2\r\n");
}

#[test]
fn second_value_replaces_the_first() {
    let mut store = Store::new();
    handle_command("SET k first", &mut store);
    handle_command("SET k second one", &mut store);
    assert_eq!(handle_command("GET k", &mut store), "$10\r\nsecond one\r\n");
}

#[test]
fn unknown_lines_leave_the_store_alone() {
    let mut store = Store::new();
    handle_command("SET k v", &mut store);
    let lines = [
        "", "FOO bar", "GET", "DEL", "SET", "SET k", "GET k extra", "DEL k extra", "get k",
        "set k v", " GET k", "GETX k", "GE k", "PUT k v",
    ];
    for line in lines {
        assert_eq!(handle_command(line, &mut store), "-ERR unknown command\r\n", "{:?}", line);
    }
    assert_eq!(handle_command("GET k", &mut store), "$1\r\nv\r\n");
    assert_eq!(store.get("k extra"), None);
}

#[test]
fn last_of_many_writers_is_found() {
    let mut store = Store::new();
    for writer in 0..25 {
        let line = format!("SET shared writer-{}", writer);
        assert_eq!(handle_command(&line, &mut store), "+OK\r\n");
    }
    assert_eq!(handle_command("GET shared", &mut store), "$9\r\nwriter-24\r\n");
}
