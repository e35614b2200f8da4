use base64::Engine;
use serde_json::Value;
use session_parsers::cursor::{
    bubbles_to_messages, decode_blob_value, decode_meta_value, extract_bubbles,
    extract_openai_content, read_blobs, CursorBubble, CursorParser, OpenAIMessage,
};
use session_parsers::json::{json_from_value, parse_json, Json};
use session_parsers::session::{Role, SessionSource};
use session_parsers::timestamp::Timestamp;

/// A row as a message in the current format, where it is one.
fn openai(row: &[u8]) -> Option<OpenAIMessage> {
    let value: Value = serde_json::from_slice(row).ok()?;
    let object = value.as_object()?;
    let role = match object.get("role") {
        None | Some(Value::Null) => None,
        Some(Value::String(s)) => Some(s.clone()),
        Some(_) => return None,
    };
    let content = match object.get("content") {
        None | Some(Value::Null) => None,
        Some(v) => Some(json_from_value(v.clone())),
    };
    Some(OpenAIMessage { role, content })
}

fn rows(texts: &[&str]) -> Vec<Vec<u8>> {
    texts.iter().map(|t| t.as_bytes().to_vec()).collect()
}

fn openai_rows(rows: &[Vec<u8>]) -> Vec<Option<OpenAIMessage>> {
    rows.iter().map(|r| openai(r)).collect()
}

fn json(text: &str) -> Json {
    parse_json(text.as_bytes()).unwrap()
}

#[test]
fn test_can_parse_cursor_path() {
    // macOS
    assert!(CursorParser::can_parse(
        "/home/user/.cursor/chats/abc-123/store.db"
    ));
    // Linux
    assert!(CursorParser::can_parse(
        "/home/user/.config/cursor/chats/abc-123/store.db"
    ));
    // Windows backslash paths
    assert!(CursorParser::can_parse(
        "C:\\Users\\user\\.cursor\\chats\\abc-123\\store.db"
    ));
    assert!(CursorParser::can_parse(
        "C:\\Users\\user\\.config\\cursor\\chats\\abc-123\\store.db"
    ));
}

#[test]
fn test_can_parse_rejects_other() {
    assert!(!CursorParser::can_parse(
        "/home/user/.codex/projects/test/session.jsonl"
    ));
    assert!(!CursorParser::can_parse(
        "/home/user/.cursor/chats/abc-123/other.db"
    ));
    assert!(!CursorParser::can_parse(
        "/home/user/.codex/sessions/test.jsonl"
    ));
}

#[test]
fn test_parse_cursor_session() {
    let meta = r#"{"createdAt":1700000000000,"cwd":"/test/project"}"#;
    let blobs = rows(&[
        r#"{"bubbleId":"b1","type":1,"text":"Hello cursor","timestamp":1700000001000}"#,
        r#"{"bubbleId":"b2","type":2,"text":"Hi there!","timestamp":1700000002000}"#,
    ]);
    let current = openai_rows(&blobs);
    let session = CursorParser::parse_file(
        "/tmp/.cursor/chats/test-chat-001/store.db",
        Some(meta),
        Some(&current),
        Some(&blobs),
    );
    assert_eq!(session.id, "test-chat-001");
    assert_eq!(session.source, SessionSource::CursorCli);
    assert_eq!(session.cwd, "/test/project");
    assert_eq!(session.messages.len(), 2);
    assert_eq!(session.messages[0].role, Role::User);
    assert_eq!(session.messages[0].content, "Hello cursor");
    assert_eq!(session.messages[1].role, Role::Assistant);
    assert_eq!(session.messages[1].content, "Hi there!");
    assert_eq!(session.timestamp, Timestamp { secs: 1700000002, nanos: 0 });
    assert_eq!(session.git_branch, None);
}

#[test]
fn test_parse_cursor_session_base64() {
    let bubble = r#"{"bubbleId":"b1","type":1,"text":"base64 message","timestamp":1700000001000}"#;
    let encoded = base64::engine::general_purpose::STANDARD.encode(bubble);
    let blobs = rows(&[&encoded]);
    let current = openai_rows(&blobs);
    let session = CursorParser::parse_file(
        "/tmp/.cursor/chats/test-b64/store.db",
        None,
        Some(&current),
        Some(&blobs),
    );
    assert_eq!(session.messages.len(), 1);
    assert_eq!(session.messages[0].role, Role::User);
    assert_eq!(session.messages[0].content, "base64 message");
}

#[test]
fn test_parse_openai_format() {
    let meta = r#"{"agentId":"test-openai","createdAt":1700000000000}"#;
    let hex_meta = hex::encode(meta);
    let msg1 = r#"{"role":"user","content":[{"type":"text","text":"hello openai format"}]}"#;
    let msg2 = r#"{"role":"assistant","content":[{"type":"text","text":"response here"}]}"#;
    let msg3 = r#"{"role":"system","content":"system prompt"}"#;
    let blobs = rows(&[msg3, msg1, msg2]);
    let current = openai_rows(&blobs);
    let session = CursorParser::parse_file(
        "/tmp/.cursor/chats/test-openai/store.db",
        Some(&hex_meta),
        Some(&current),
        Some(&blobs),
    );
    assert_eq!(session.id, "test-openai");
    assert_eq!(session.messages.len(), 2);
    assert_eq!(session.messages[0].role, Role::User);
    assert_eq!(session.messages[0].content, "hello openai format");
    assert_eq!(session.messages[1].role, Role::Assistant);
    assert_eq!(session.messages[1].content, "response here");
    assert_eq!(session.timestamp, Timestamp::from_millis(1700000000000).unwrap());
    assert_eq!(session.messages[0].timestamp, session.timestamp);
}

#[test]
fn paths_that_only_resemble_a_database_are_refused() {
    assert!(CursorParser::can_parse(".cursor/chats/mystore.db"));
    assert!(!CursorParser::can_parse(".cursor/chats/store.db/"));
    assert!(!CursorParser::can_parse("store.db"));
    assert!(!CursorParser::can_parse("/home/u/cursor/chats/store.db"));
}

#[test]
fn metadata_are_plain_or_hexadecimal() {
    match decode_meta_value(r#"{"cwd":"/a"}"#) {
        Some(value) => assert_eq!(value.text_at("cwd"), Some("/a".to_string())),
        None => panic!("no value"),
    }
    match decode_meta_value(&hex::encode_upper(r#"{"cwd":"/b"}"#)) {
        Some(value) => assert_eq!(value.text_at("cwd"), Some("/b".to_string())),
        None => panic!("no value"),
    }
    match decode_meta_value(&hex::encode("[1]")) {
        Some(Json::Array(items)) => assert_eq!(items.len(), 1),
        _ => panic!("no array"),
    }
    // Digits alone are JSON as they stand.
    assert_eq!(decode_meta_value("3132").unwrap().as_i64(), Some(3132));
    assert!(decode_meta_value("7b7").is_none());
    assert!(decode_meta_value("7b").is_none());
    assert!(decode_meta_value("zz").is_none());
    assert!(decode_meta_value("").is_none());
}

#[test]
fn metadata_give_time_and_directory() {
    let value = json(r#"{"createdAt":-1,"cwd":"/x"}"#);
    let (created, cwd) = CursorParser::read_meta(Some(&value));
    assert_eq!(created, Some(Timestamp { secs: -1, nanos: 999_000_000 }));
    assert_eq!(cwd, Some("/x".to_string()));
    let value = json(r#"{"createdAt":1.5,"cwd":3}"#);
    assert_eq!(CursorParser::read_meta(Some(&value)), (None, None));
    let value = json(r#"{"createdAt":9000000000000000}"#);
    assert_eq!(CursorParser::read_meta(Some(&value)), (None, None));
    assert_eq!(CursorParser::read_meta(None), (None, None));
}

fn bubble_texts(bubbles: &[CursorBubble]) -> Vec<String> {
    bubbles.iter().map(|b| b.text.clone().unwrap_or_default()).collect()
}

#[test]
fn bubbles_are_found_in_each_shape() {
    let one = extract_bubbles(&json(r#"{"type":1,"text":"a","other":[1e3]}"#));
    assert_eq!(bubble_texts(&one), vec!["a"]);
    let list = extract_bubbles(&json(
        r#"[{"type":1,"text":"a"},{"text":"untyped"},7,{"type":2,"text":"b"},{"type":"x"}]"#,
    ));
    assert_eq!(bubble_texts(&list), vec!["a", "b"]);
    let inner = extract_bubbles(&json(r#"{"bubbles":[{"type":2,"text":"c"}],"text":"no"}"#));
    assert_eq!(bubble_texts(&inner), vec!["c"]);
    let fields = extract_bubbles(&json(r#"[1,"d",null,5]"#));
    assert_eq!(bubble_texts(&fields), vec!["d"]);
    assert_eq!(fields[0].timestamp, Some(5));
    assert!(extract_bubbles(&json(r#"[1,"d",null]"#)).is_empty());
    assert!(extract_bubbles(&json(r#"{"bubbles":{"type":1}}"#)).is_empty());
    assert!(extract_bubbles(&json("null")).is_empty());
    assert!(extract_bubbles(&json(r#""text""#)).is_empty());
}

#[test]
fn a_field_of_the_wrong_kind_spoils_a_bubble() {
    assert!(CursorBubble::from_json(&json(r#"{"type":1,"text":5}"#)).is_none());
    assert!(CursorBubble::from_json(&json(r#"{"type":2147483648}"#)).is_none());
    assert!(CursorBubble::from_json(&json(r#"{"type":1.0}"#)).is_none());
    assert!(CursorBubble::from_json(&json(r#"{"type":1,"timestamp":9223372036854775808}"#)).is_none());
    let bubble = CursorBubble::from_json(&json(
        r#"{"type":-2147483648,"text":null,"richText":"r","timestamp":-9223372036854775808}"#,
    ))
    .unwrap();
    assert_eq!(bubble.bubble_type, Some(-2147483648));
    assert_eq!(bubble.text, None);
    assert_eq!(bubble.rich_text, Some("r".to_string()));
    assert_eq!(bubble.timestamp, Some(i64::MIN));
    let empty = CursorBubble::from_json(&json("{}")).unwrap();
    assert_eq!(empty.bubble_type, None);
    assert!(CursorBubble::typed(&json("{}")).is_none());
}

#[test]
fn blobs_are_plain_or_base64() {
    let plain = r#"[{"type":1,"text":"a"}]"#;
    let encoded = base64::engine::general_purpose::STANDARD.encode(plain);
    assert_eq!(bubble_texts(&decode_blob_value(plain.as_bytes())), vec!["a"]);
    assert_eq!(bubble_texts(&decode_blob_value(encoded.as_bytes())), vec!["a"]);
    // Without its padding the text is no base64.
    let short = base64::engine::general_purpose::STANDARD_NO_PAD.encode(r#"{"type":1}"#);
    assert!(decode_blob_value(short.as_bytes()).is_empty());
    assert!(decode_blob_value(b"\xff\xfe").is_empty());
    assert!(decode_blob_value(b"").is_empty());
    assert!(decode_blob_value(b"null").is_empty());
    let all = read_blobs(&rows(&[plain, "junk", &encoded]));
    assert_eq!(bubble_texts(&all), vec!["a", "a"]);
}

fn bubble(kind: Option<i32>, text: Option<&str>, rich: Option<&str>, ms: Option<i64>) -> CursorBubble {
    CursorBubble {
        bubble_type: kind,
        text: text.map(|s| s.to_string()),
        rich_text: rich.map(|s| s.to_string()),
        timestamp: ms,
    }
}

#[test]
fn bubbles_become_messages() {
    let before = Timestamp::now();
    let messages = bubbles_to_messages(&vec![
        bubble(Some(1), Some("a"), Some("unused"), Some(1500)),
        bubble(Some(2), None, Some("rich"), Some(i64::MAX)),
        bubble(Some(3), Some("other"), None, Some(1)),
        bubble(None, Some("none"), None, Some(1)),
        bubble(Some(1), Some(""), Some("hidden by an empty text"), Some(1)),
        bubble(Some(2), None, None, Some(1)),
    ]);
    assert_eq!(messages.len(), 2);
    assert_eq!(messages[0].role, Role::User);
    assert_eq!(messages[0].content, "a");
    assert_eq!(messages[0].timestamp, Timestamp { secs: 1, nanos: 500_000_000 });
    assert_eq!(messages[1].role, Role::Assistant);
    assert_eq!(messages[1].content, "rich");
    assert!(!before.is_after(messages[1].timestamp));
}

#[test]
fn contents_are_text_or_parts() {
    assert_eq!(extract_openai_content(&json(r#""plain""#)), "plain");
    assert_eq!(
        extract_openai_content(&json(
            r#"[{"type":"text","text":"a"},{"type":"image","text":"no"},{"type":"text","text":""},
                {"type":"text"},{"text":"no"},"no",{"type":"text","text":"b"}]"#
        )),
        "a\n\nb"
    );
    assert_eq!(extract_openai_content(&json("[]")), "");
    assert_eq!(extract_openai_content(&json(r#"{"type":"text","text":"no"}"#)), "");
}

#[test]
fn the_legacy_format_is_read_where_the_current_one_gives_nothing() {
    let blobs = rows(&[r#"{"type":1,"text":"old","timestamp":1000}"#]);
    let blank = rows(&[r#"{"role":"user","content":""}"#, r#"{"role":"tool","content":"x"}"#, "junk"]);
    let path = "/c/d/store.db";
    let meta = r#"{"createdAt":5000}"#;
    let session =
        CursorParser::parse_file(path, Some(meta), Some(&openai_rows(&blank)), Some(&blobs));
    assert_eq!(session.messages.len(), 1);
    assert_eq!(session.messages[0].content, "old");
    assert_eq!(session.timestamp, Timestamp { secs: 1, nanos: 0 });
    assert_eq!(session.cwd, ".");
    let session = CursorParser::parse_file(path, Some(meta), None, Some(&blobs));
    assert_eq!(session.messages.len(), 1);
    let session = CursorParser::parse_file(path, Some(meta), None, None);
    assert!(session.messages.is_empty());
    assert_eq!(session.timestamp, Timestamp { secs: 5, nanos: 0 });
    let before = Timestamp::now();
    let session = CursorParser::parse_file("store.db", None, None, None);
    assert!(!before.is_after(session.timestamp));
    assert_eq!(session.id, "unknown");
    let both = rows(&[r#"{"role":"user","content":"new"}"#]);
    let session =
        CursorParser::parse_file(path, Some(meta), Some(&openai_rows(&both)), Some(&blobs));
    assert_eq!(session.messages.len(), 1);
    assert_eq!(session.messages[0].content, "new");
}
