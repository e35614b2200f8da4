use serde_json::Value;
use session_parsers::copilot::{CopilotLine, CopilotParser, EventLog};
use session_parsers::json::json_from_value;
use session_parsers::session::{Role, Session, SessionSource};
use session_parsers::timestamp::Timestamp;

/// A line of an events file as an event, where it is one.
fn event(line: &str) -> Option<CopilotLine> {
    let value: Value = serde_json::from_str(line).ok()?;
    let timestamp = match value.get("timestamp") {
        None | Some(Value::Null) => None,
        Some(Value::String(s)) => Some(s.clone()),
        Some(_) => return None,
    };
    Some(CopilotLine {
        entry_type: value.get("type")?.as_str()?.to_string(),
        data: json_from_value(value.get("data")?.clone()),
        timestamp,
    })
}

fn parse(path: &str, content: &str) -> Session {
    let lines: Vec<Option<CopilotLine>> = content.lines().map(event).collect();
    CopilotParser::parse_file(path, &lines)
}

#[test]
fn test_can_parse_copilot_path() {
    assert!(CopilotParser::can_parse(
        "/home/user/.copilot/session-state/abc-123/events.jsonl"
    ));
}

#[test]
fn test_can_parse_rejects_other_paths() {
    assert!(!CopilotParser::can_parse(
        "/home/user/.codex/projects/test/session.jsonl"
    ));
    assert!(!CopilotParser::can_parse(
        "/home/user/.copilot/session-state/abc-123/workspace.yaml"
    ));
}

#[test]
fn test_parse_events_basic() {
    let content = r#"{"type":"session.start","data":{"sessionId":"test-id-001","context":{"cwd":"/test/project","branch":"main"}},"timestamp":"2026-01-15T10:00:00.000Z"}
{"type":"user.message","data":{"content":"hello"},"timestamp":"2026-01-15T10:00:05.000Z"}
{"type":"assistant.turn_start","data":{"turnId":"0"},"timestamp":"2026-01-15T10:00:05.100Z"}
{"type":"assistant.message","data":{"content":"Hi there!"},"timestamp":"2026-01-15T10:00:10.000Z"}
{"type":"assistant.turn_end","data":{},"timestamp":"2026-01-15T10:00:10.100Z"}"#;

    let session = parse("/tmp/.copilot/session-state/test-id-001/events.jsonl", content);
    assert_eq!(session.id, "test-id-001");
    assert_eq!(session.source, SessionSource::CopilotCli);
    assert_eq!(session.cwd, "/test/project");
    assert_eq!(session.git_branch, Some("main".to_string()));
    assert_eq!(session.messages.len(), 2);
    assert_eq!(session.messages[0].role, Role::User);
    assert_eq!(session.messages[0].content, "hello");
    assert_eq!(session.messages[1].role, Role::Assistant);
    assert_eq!(session.messages[1].content, "Hi there!");
    assert_eq!(session.file_path, "/tmp/.copilot/session-state/test-id-001/events.jsonl");
}

#[test]
fn test_parse_events_skips_non_messages() {
    let content = r#"{"type":"session.start","data":{"sessionId":"test-skip","context":{"cwd":"/"}},"timestamp":"2026-01-15T10:00:00.000Z"}
{"type":"session.model_change","data":{"newModel":"gpt-4.1"},"timestamp":"2026-01-15T10:00:01.000Z"}
{"type":"session.info","data":{"infoType":"model","message":"Model changed"},"timestamp":"2026-01-15T10:00:01.000Z"}
{"type":"session.error","data":{"message":"something failed"},"timestamp":"2026-01-15T10:00:02.000Z"}
{"type":"user.message","data":{"content":"test"},"timestamp":"2026-01-15T10:00:05.000Z"}"#;

    let session = parse("/tmp/.copilot/session-state/test-skip/events.jsonl", content);
    assert_eq!(session.messages.len(), 1);
    assert_eq!(session.messages[0].content, "test");
}

#[test]
fn test_session_timestamp_uses_message_time_not_event_time() {
    // The info at :02 and the error at :03 come after the message at :01.
    let content = r#"{"type":"session.start","data":{"sessionId":"test-ts","context":{"cwd":"/"}},"timestamp":"2026-01-15T10:00:00.000Z"}
{"type":"user.message","data":{"content":"hello"},"timestamp":"2026-01-15T10:00:01.000Z"}
{"type":"session.info","data":{"infoType":"model","message":"changed"},"timestamp":"2026-01-15T10:00:02.000Z"}
{"type":"session.error","data":{"message":"err"},"timestamp":"2026-01-15T10:00:03.000Z"}"#;

    let session = parse("/tmp/.copilot/session-state/test-ts/events.jsonl", content);
    let expected = Timestamp::from_rfc3339("2026-01-15T10:00:01.000Z").unwrap();
    assert_eq!(session.timestamp, expected);
    assert_eq!(expected.secs, 1768471201);
    assert_eq!(expected.nanos, 0);
}

#[test]
fn names_and_places_decide_what_is_parsed() {
    assert!(CopilotParser::can_parse("a/.copilot/session-state/events.jsonl"));
    assert!(CopilotParser::can_parse("a/.copilot/session-state/b/events.jsonl/"));
    assert!(CopilotParser::can_parse("a/.copilot/session-state/b/events.jsonl/."));
    assert!(!CopilotParser::can_parse("a/.copilot/session-state/b/events.jsonl/.."));
    assert!(!CopilotParser::can_parse("a/.copilot/session-state/b/my-events.jsonl"));
    assert!(!CopilotParser::can_parse("a/.copilot/sessions/b/events.jsonl"));
    assert!(!CopilotParser::can_parse(""));
    assert!(CopilotParser::can_parse("C:\\u/.copilot/session-state/b/events.jsonl"));
    assert!(!CopilotParser::can_parse("C:\\u/.copilot/session-state/b/other.jsonl"));
    assert!(CopilotParser::can_parse("//s/t/.copilot/session-state/b/events.jsonl"));
    assert!(CopilotParser::is_events_file(
        "C:\\.copilot\\session-state\\b\\events.jsonl",
        Some("events.jsonl")
    ));
    assert!(!CopilotParser::is_events_file("C:\\.copilot\\session-state\\b\\x", Some("x")));
    assert!(!CopilotParser::is_events_file("/.copilot/session-state", None));
}

#[test]
fn the_directory_names_a_session_without_identifier() {
    let content = r#"{"type":"user.message","data":{"content":"x"},"timestamp":"2026-01-15T10:00:01Z"}"#;
    let session = parse("/home/u/.copilot/session-state/abc-123/events.jsonl", content);
    assert_eq!(session.id, "abc-123");
    assert_eq!(session.cwd, ".");
    assert_eq!(session.git_branch, None);
    assert_eq!(parse("events.jsonl", content).id, "unknown");
    assert_eq!(parse("/events.jsonl", content).id, "unknown");
    assert_eq!(parse("../events.jsonl", content).id, "unknown");
    assert_eq!(parse("./a/./events.jsonl", content).id, "a");
}

#[test]
fn the_first_start_with_a_fact_gives_it() {
    let content = r#"{"type":"session.start","data":{"sessionId":7,"context":{"branch":"one"}}}
{"type":"session.start","data":{"sessionId":"second","context":{"cwd":"/two","branch":"two"}}}
{"type":"session.start","data":{"sessionId":"third","context":{"cwd":"/three"}}}"#;
    let session = parse("/d/events.jsonl", content);
    assert_eq!(session.id, "second");
    assert_eq!(session.cwd, "/two");
    assert_eq!(session.git_branch, Some("one".to_string()));
    assert!(session.messages.is_empty());
}

#[test]
fn unreadable_lines_and_empty_messages_are_passed_over() {
    let content = r#"not json

{"type":"user.message"}
{"type":"user.message","data":{"content":""},"timestamp":"2026-01-15T10:00:09Z"}
{"type":"user.message","data":{"content":5},"timestamp":"2026-01-15T10:00:09Z"}
{"type":"user.message","data":null}
{"type":"user.message","data":{"content":"kept"},"timestamp":"2026-01-15T10:00:01Z"}"#;
    let session = parse("/d/events.jsonl", content);
    assert_eq!(session.messages.len(), 1);
    assert_eq!(session.messages[0].content, "kept");
    assert_eq!(session.timestamp, Timestamp::from_rfc3339("2026-01-15T10:00:01Z").unwrap());
}

#[test]
fn the_latest_message_counts_whatever_the_order() {
    let content = r#"{"type":"user.message","data":{"content":"late"},"timestamp":"2026-01-15T12:00:00+01:00"}
{"type":"assistant.message","data":{"content":"early"},"timestamp":"2026-01-15T10:59:59.999Z"}"#;
    let session = parse("/d/events.jsonl", content);
    assert_eq!(session.timestamp, Timestamp::from_rfc3339("2026-01-15T11:00:00Z").unwrap());
    assert_eq!(session.messages[1].timestamp.nanos, 999_000_000);
}

#[test]
fn messages_without_time_get_the_present_one() {
    let before = Timestamp::now();
    let content = r#"{"type":"user.message","data":{"content":"a"},"timestamp":"yesterday"}
{"type":"assistant.message","data":{"content":"b"}}"#;
    let session = parse("/d/events.jsonl", content);
    assert_eq!(session.messages.len(), 2);
    assert!(!before.is_after(session.messages[0].timestamp));
    assert!(!before.is_after(session.timestamp));
    assert!(before.secs > 1_700_000_000);
    assert!(!before.is_after(parse("/d/events.jsonl", "").timestamp));
}

#[test]
fn neighbours_of_one_role_are_joined() {
    let content = r#"{"type":"assistant.message","data":{"content":"a"},"timestamp":"2026-01-15T10:00:01Z"}
{"type":"tool.execution_start","data":{}}
{"type":"assistant.message","data":{"content":"b"},"timestamp":"2026-01-15T10:00:02Z"}
{"type":"user.message","data":{"content":"c"},"timestamp":"2026-01-15T10:00:03Z"}
{"type":"assistant.message","data":{"content":"d"},"timestamp":"2026-01-15T10:00:04Z"}"#;
    let session = parse("/d/events.jsonl", content);
    let contents: Vec<&str> = session.messages.iter().map(|m| m.content.as_str()).collect();
    assert_eq!(contents, vec!["a\n\nb", "c", "d"]);
    assert_eq!(session.messages[0].timestamp.secs, 1768471201);
    assert_eq!(session.timestamp.secs, 1768471204);
}

#[test]
fn a_log_hears_one_event_at_a_time() {
    let mut log = EventLog::new();
    let line = event(r#"{"type":"user.message","data":{"content":"x"}}"#).unwrap();
    let time = Timestamp { secs: 5, nanos: 6 };
    log.hear(&line, Some(time));
    log.hear(&line, None);
    let other = event(r#"{"type":"session.end","data":{"sessionId":"no"}}"#).unwrap();
    log.hear(&other, Some(time));
    assert_eq!(log.drafts.len(), 2);
    assert_eq!(log.drafts[0].timestamp, Some(time));
    assert_eq!(log.drafts[1].timestamp, None);
    assert_eq!(log.session_id, None);
}
