use ccsessionctl::content::MessageContent;
use ccsessionctl::record::{decode_line, SessionRecord};

#[test]
fn decode_skips_empty_and_malformed_lines() {
    assert!(decode_line("").is_none());
    assert!(decode_line("not json").is_none());
    assert!(decode_line("{\"type\": \"summary\"").is_none());
    assert!(decode_line("[1, 2, 3]").is_none());
    assert!(decode_line("{}").is_none());
    assert!(decode_line(r#"{"type": 5}"#).is_none());
}

#[test]
fn decode_rejects_missing_required_member() {
    assert!(decode_line(r#"{"type":"summary"}"#).is_none());
    assert!(decode_line(r#"{"type":"summary","summary":7}"#).is_none());
    assert!(decode_line(r#"{"type":"custom-title"}"#).is_none());
}

#[test]
fn decode_unknown_discriminator_is_unknown() {
    let r = decode_line(r#"{"type":"brand-new-kind","x":1}"#);
    assert!(matches!(r, Some(SessionRecord::Unknown)));
}

#[test]
fn decode_summary_record() {
    match decode_line(r#"{"type":"summary","summary":"Fix the bug","leafUuid":"abc"}"#) {
        Some(SessionRecord::Summary(s)) => {
            assert_eq!(s.summary, "Fix the bug");
            assert_eq!(s.leaf_uuid.as_deref(), Some("abc"));
        }
        _ => panic!("expected a summary"),
    }
    match decode_line(r#"{"type":"summary","summary":"S","leafUuid":null}"#) {
        Some(SessionRecord::Summary(s)) => assert!(s.leaf_uuid.is_none()),
        _ => panic!("expected a summary"),
    }
}

#[test]
fn decode_custom_title_and_snapshot() {
    match decode_line(r#"{"type":"custom-title","customTitle":"My run"}"#) {
        Some(SessionRecord::CustomTitle(c)) => assert_eq!(c.custom_title, "My run"),
        _ => panic!("expected a custom title"),
    }
    match decode_line(r#"{"type":"file-history-snapshot","messageId":"m1"}"#) {
        Some(SessionRecord::FileHistorySnapshot(f)) => assert_eq!(f.message_id, "m1"),
        _ => panic!("expected a snapshot"),
    }
}

#[test]
fn decode_user_record_with_timestamp() {
    let line = r#"{"type":"user","uuid":"u1","timestamp":"2024-01-02T03:04:05.678Z","sessionId":"s1","message":{"role":"user","content":"hello"},"cwd":"/w","isMeta":false}"#;
    match decode_line(line) {
        Some(SessionRecord::User(u)) => {
            assert_eq!(u.uuid, "u1");
            assert_eq!(u.timestamp, 1704164645678);
            assert_eq!(u.session_id, "s1");
            assert_eq!(u.cwd.as_deref(), Some("/w"));
            assert_eq!(u.is_meta, Some(false));
            assert!(u.git_branch.is_none());
            match &u.message.content {
                MessageContent::Text(t) => assert_eq!(t, "hello"),
                _ => panic!("expected plain text"),
            }
        }
        _ => panic!("expected a user record"),
    }
}

#[test]
fn decode_user_record_with_bad_timestamp_is_skipped() {
    let line = r#"{"type":"user","uuid":"u1","timestamp":"yesterday","sessionId":"s1","message":{"role":"user","content":"hello"}}"#;
    assert!(decode_line(line).is_none());
}

#[test]
fn decode_assistant_record_with_blocks() {
    let line = r#"{"type":"assistant","uuid":"a1","timestamp":"2024-01-02T03:04:05Z","sessionId":"s1","message":{"role":"assistant","content":[{"type":"text","text":"Hi"},{"type":"tool_use","name":"Bash","input":{"command":"ls"}},{"type":"mystery"}],"model":"m"}}"#;
    match decode_line(line) {
        Some(SessionRecord::Assistant(a)) => {
            assert_eq!(a.timestamp, 1704164645000);
            assert_eq!(a.message.content.len(), 3);
            assert_eq!(a.message.as_text(), "Hi\n\u{1F527} Bash \"ls\"");
            assert_eq!(a.message.model.as_deref(), Some("m"));
        }
        _ => panic!("expected an assistant record"),
    }
}

#[test]
fn decode_assistant_with_malformed_block_is_skipped() {
    let line = r#"{"type":"assistant","uuid":"a1","timestamp":"2024-01-02T03:04:05Z","sessionId":"s1","message":{"role":"assistant","content":[{"type":"text"}]}}"#;
    assert!(decode_line(line).is_none());
}

#[test]
fn decode_system_and_queue_records() {
    match decode_line(r#"{"type":"system"}"#) {
        Some(SessionRecord::System(s)) => assert!(s.timestamp.is_none()),
        _ => panic!("expected a system record"),
    }
    match decode_line(r#"{"type":"system","timestamp":"1970-01-01T00:00:01Z"}"#) {
        Some(SessionRecord::System(s)) => assert_eq!(s.timestamp, Some(1000)),
        _ => panic!("expected a system record"),
    }
    match decode_line(r#"{"type":"queue-operation","queueOperations":[1]}"#) {
        Some(SessionRecord::QueueOperation(q)) => assert!(q.queue_operations.is_some()),
        _ => panic!("expected a queue operation"),
    }
}
