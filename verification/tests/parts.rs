use session_parsers::host_path::{dir_name, file_name};
use session_parsers::json::{json_from_value, parse_json, Json};
use session_parsers::session::{
    join_consecutive_messages, latest_timestamp, stamp_all, Draft, Message, Role,
};
use session_parsers::text::{contains, ends_with, same, split_at_each};
use session_parsers::timestamp::{Timestamp, MAX_MILLIS, MIN_MILLIS};

fn at(secs: i64, nanos: u32) -> Timestamp {
    Timestamp { secs, nanos }
}

fn message(role: Role, content: &str, secs: i64) -> Message {
    Message { role, content: content.to_string(), timestamp: at(secs, 0) }
}

#[test]
fn instants_from_milliseconds() {
    assert_eq!(Timestamp::from_millis(1700000000123), Some(at(1700000000, 123_000_000)));
    assert_eq!(Timestamp::from_millis(-1), Some(at(-1, 999_000_000)));
    assert_eq!(Timestamp::from_millis(0), Some(at(0, 0)));
    assert_eq!(Timestamp::from_millis(MAX_MILLIS), Some(at(8210266876799, 999_000_000)));
    assert_eq!(Timestamp::from_millis(MIN_MILLIS), Some(at(-8334601228800, 0)));
    assert_eq!(Timestamp::from_millis(MAX_MILLIS + 1), None);
    assert_eq!(Timestamp::from_millis(MIN_MILLIS - 1), None);
}

#[test]
fn instants_from_text() {
    assert_eq!(Timestamp::from_rfc3339("1970-01-01T00:00:01.5Z"), Some(at(1, 500_000_000)));
    assert_eq!(Timestamp::from_rfc3339("1970-01-01T01:00:00+01:00"), Some(at(0, 0)));
    assert_eq!(Timestamp::from_rfc3339("1970-01-01"), None);
    assert_eq!(Timestamp::from_rfc3339(""), None);
}

#[test]
fn instants_are_compared() {
    assert!(at(2, 0).is_after(at(1, 999_999_999)));
    assert!(at(1, 2).is_after(at(1, 1)));
    assert!(!at(1, 1).is_after(at(1, 1)));
    assert!(!at(-1, 0).is_after(at(0, 0)));
    let leap = Timestamp::from_rfc3339("2016-12-31T23:59:60.5Z").unwrap();
    let next = Timestamp::from_rfc3339("2017-01-01T00:00:00Z").unwrap();
    assert_eq!(leap.nanos, 1_500_000_000);
    assert!(next.is_after(leap));
}

#[test]
fn the_latest_time_is_found() {
    let list = vec![
        message(Role::User, "a", 3),
        message(Role::User, "b", 7),
        message(Role::User, "c", 5),
    ];
    assert_eq!(latest_timestamp(&list), Some(at(7, 0)));
    assert_eq!(latest_timestamp(&Vec::new()), None);
}

#[test]
fn joining_twice_is_joining_once() {
    let list = vec![
        message(Role::User, "a", 1),
        message(Role::User, "b", 2),
        message(Role::User, "c", 3),
        message(Role::Assistant, "d", 4),
    ];
    let once = join_consecutive_messages(list);
    assert_eq!(once.len(), 2);
    assert_eq!(once[0].content, "a\n\nb\n\nc");
    assert_eq!(once[0].timestamp, at(1, 0));
    let twice = join_consecutive_messages(once);
    assert_eq!(twice.len(), 2);
    assert_eq!(twice[0].content, "a\n\nb\n\nc");
    assert_eq!(twice[1].content, "d");
    assert!(join_consecutive_messages(Vec::new()).is_empty());
}

#[test]
fn drafts_keep_their_times() {
    let drafts = vec![
        Draft { role: Role::User, content: "a".to_string(), timestamp: Some(at(1, 0)) },
        Draft { role: Role::Assistant, content: "b".to_string(), timestamp: None },
    ];
    let messages = stamp_all(drafts);
    assert_eq!(messages[0].timestamp, at(1, 0));
    assert_eq!(messages[1].content, "b");
    assert!(messages[1].timestamp.secs > 1_700_000_000);
}

#[test]
fn text_is_searched_and_split() {
    assert!(contains("abcabd", "abd"));
    assert!(contains("abc", ""));
    assert!(contains("", ""));
    assert!(!contains("ab", "abc"));
    assert!(contains("na\u{ef}ve", "\u{ef}v"));
    assert!(ends_with("store.db", "store.db"));
    assert!(!ends_with("db", "store.db"));
    assert!(ends_with("x", ""));
    assert!(same("a", "a"));
    assert!(!same("a", "b"));
    assert_eq!(split_at_each("a-b--c", '-'), vec!["a", "b", "", "c"]);
    assert_eq!(split_at_each("", '-'), vec![""]);
    assert_eq!(split_at_each("-\u{e9}", '-'), vec!["", "\u{e9}"]);
}

#[test]
fn json_is_read() {
    let value = parse_json(br#"{"a":{"b":"c"},"n":[1,true,null,2.5,18446744073709551615]}"#).unwrap();
    assert_eq!(value.text_at2("a", "b"), Some("c".to_string()));
    assert_eq!(value.text_at2("a", "x"), None);
    assert_eq!(value.text_at2("n", "b"), None);
    assert_eq!(value.text_at("a"), None);
    assert!(value.get("x").is_none());
    match value.get("n") {
        Some(Json::Array(items)) => {
            assert_eq!(items.len(), 5);
            assert_eq!(items[0].as_i64(), Some(1));
            assert!(matches!(items[1], Json::Bool(true)));
            assert!(matches!(items[2], Json::Null));
            assert_eq!(items[3].as_i64(), None);
            assert_eq!(items[4].as_i64(), None);
        }
        _ => panic!("no array"),
    }
    assert!(parse_json(b"{").is_none());
    // A text that starts with a letter or with a digit and a letter.
    assert!(parse_json(b"eyJ9").is_none());
    assert!(parse_json(b"W10=").is_none());
    assert!(parse_json(b"7b7d").is_none());
    assert!(parse_json(b"0a").is_none());
    assert!(parse_json(b"7E1").is_some());
    assert!(parse_json(b"true").is_some());
    let text = json_from_value(serde_json::Value::String("s".to_string()));
    assert_eq!(text.as_text(), Some("s".to_string()));
    // Of a name given twice the last value counts.
    assert_eq!(parse_json(br#"{"k":1,"k":2}"#).unwrap().get("k").unwrap().as_i64(), Some(2));
}

#[test]
fn directories_are_named() {
    assert_eq!(dir_name("/a/b/c.db"), Some("b".to_string()));
    assert_eq!(dir_name("a/b/../c.db"), None);
    assert_eq!(dir_name("/c.db"), None);
    assert_eq!(dir_name("c.db"), None);
    assert_eq!(dir_name(""), None);
    assert_eq!(dir_name("/a/./b/"), Some("a".to_string()));
    assert_eq!(dir_name("/a/b:c/d.db"), Some("b:c".to_string()));
    assert_eq!(dir_name("C:/u/.cursor/chats/abc/store.db"), Some("abc".to_string()));
    assert_eq!(dir_name("//server/share/abc/store.db"), Some("abc".to_string()));
    assert_eq!(file_name("//server/share/abc/store.db"), Some("store.db".to_string()));
    assert_eq!(file_name("a/.."), None);
    assert_eq!(file_name("/"), None);
    assert_eq!(file_name("."), None);
    assert_eq!(file_name("a//b/./"), Some("b".to_string()));
    let samples = ["a\\b/c", "C:\\a\\b", "C:a/b", "\\\\s\\t\\u\\v", "//s", "../a", "a/../b", "./a/b"];
    for path in samples {
        let p = std::path::Path::new(path);
        let name = p.file_name().and_then(|n| n.to_str()).map(|n| n.to_string());
        let up = p.parent().and_then(|p| p.file_name()).and_then(|n| n.to_str());
        assert_eq!(file_name(path), name, "name of {:?}", path);
        assert_eq!(dir_name(path).as_deref(), up, "holder of {:?}", path);
    }
}
