use tiny_kv::command::{parse_command, Command};

fn put(key: &str, value: &str) -> Command {
    Command::Put { key: key.to_string(), value: value.to_string() }
}

fn get(key: &str) -> Command {
    Command::Get { key: key.to_string() }
}

fn delete(key: &str) -> Command {
    Command::Delete { key: key.to_string() }
}

#[test]
fn parses_the_three_commands() {
    assert_eq!(parse_command("SET foo bar"), put("foo", "bar"));
    assert_eq!(parse_command("GET foo"), get("foo"));
    assert_eq!(parse_command("DEL foo"), delete("foo"));
}

#[test]
fn value_keeps_its_separators() {
    assert_eq!(parse_command("SET k a b  c "), put("k", "a b  c "));
    assert_eq!(parse_command("SET k  "), put("k", " "));
}

#[test]
fn key_and_value_may_be_empty() {
    assert_eq!(parse_command("SET k "), put("k", ""));
    assert_eq!(parse_command("SET  v"), put("", "v"));
    assert_eq!(parse_command("SET  "), put("", ""));
    assert_eq!(parse_command("GET "), get(""));
    assert_eq!(parse_command("DEL "), delete(""));
}

#[test]
fn too_many_or_too_few_fields_are_rejected() {
    assert_eq!(parse_command("GET a b"), Command::Unrecognized);
    assert_eq!(parse_command("DEL a b"), Command::Unrecognized);
    assert_eq!(parse_command("GET  a"), Command::Unrecognized);
    assert_eq!(parse_command("SET a"), Command::Unrecognized);
    assert_eq!(parse_command("SET"), Command::Unrecognized);
    assert_eq!(parse_command("GET"), Command::Unrecognized);
    assert_eq!(parse_command("DEL"), Command::Unrecognized);
}

#[test]
fn other_lines_are_rejected() {
    assert_eq!(parse_command(""), Command::Unrecognized);
    assert_eq!(parse_command(" "), Command::Unrecognized);
    assert_eq!(parse_command("FOO bar"), Command::Unrecognized);
    assert_eq!(parse_command("bogus line"), Command::Unrecognized);
    assert_eq!(parse_command("get foo"), Command::Unrecognized);
    assert_eq!(parse_command("Set foo bar"), Command::Unrecognized);
    assert_eq!(parse_command(" GET foo"), Command::Unrecognized);
    assert_eq!(parse_command("GETS foo"), Command::Unrecognized);
    assert_eq!(parse_command("SE foo bar"), Command::Unrecognized);
    assert_eq!(parse_command("GET\tfoo"), Command::Unrecognized);
}

#[test]
fn fields_are_cut_by_characters() {
    assert_eq!(parse_command("SET cl\u{e9} val\u{fc}e \u{1f600}"), put("cl\u{e9}", "val\u{fc}e \u{1f600}"));
    assert_eq!(parse_command("GET \u{4e16}\u{754c}"), get("\u{4e16}\u{754c}"));
    assert_eq!(parse_command("S\u{c9}T a b"), Command::Unrecognized);
}

#[test]
fn only_storing_and_removing_mutate() {
    assert!(put("k", "v").mutates());
    assert!(delete("k").mutates());
    assert!(!get("k").mutates());
    assert!(!Command::Unrecognized.mutates());
}
