use ccsessionctl::scan::{messages_from_lines, scan_lines, MessageRole};
use ccsessionctl::session::{
    decode_project_path, get_project_names, get_session_preview, Project, Session,
};

fn make_test_session() -> Session {
    Session::new(
        "abc123def456".to_string(),
        "test-project".to_string(),
        "-home-user-test-project".to_string(),
        "/tmp/test.jsonl".to_string(),
        1024,
        chrono::Utc::now().timestamp_millis(),
        false,
    )
}

fn lines(items: &[&str]) -> Vec<String> {
    items.iter().map(|s| s.to_string()).collect()
}

#[test]
fn test_preview_custom_title_priority() {
    let mut session = make_test_session();
    session.custom_title = Some("My Custom Title".to_string());
    session.summary = Some("Summary text".to_string());
    session.first_message = Some("First message".to_string());
    assert_eq!(get_session_preview(&session), "My Custom Title");
}

#[test]
fn test_preview_first_message_priority() {
    let mut session = make_test_session();
    session.summary = Some("Summary text".to_string());
    session.first_message = Some("First message".to_string());
    assert_eq!(get_session_preview(&session), "First message");
}

#[test]
fn test_preview_summary_fallback() {
    let mut session = make_test_session();
    session.summary = Some("Summary text".to_string());
    assert_eq!(get_session_preview(&session), "Summary text");
}

#[test]
fn test_preview_message_count_fallback() {
    let mut session = make_test_session();
    session.message_count = Some(5);
    assert_eq!(get_session_preview(&session), "[5 messages]");
}

#[test]
fn test_preview_message_count_singular() {
    let mut session = make_test_session();
    session.message_count = Some(1);
    assert_eq!(get_session_preview(&session), "[1 message]");
}

#[test]
fn test_preview_session_id_fallback() {
    let session = make_test_session();
    assert_eq!(get_session_preview(&session), "[abc123def456]");
}

#[test]
fn test_preview_long_session_id_truncated() {
    let mut session = make_test_session();
    session.id = "abcdefghijklmnopqrstuvwxyz".to_string();
    assert_eq!(get_session_preview(&session), "[abcdefghijkl...]");
}

#[test]
fn preview_zero_count_falls_back_to_id() {
    let mut session = make_test_session();
    session.message_count = Some(0);
    assert_eq!(get_session_preview(&session), "[abc123def456]");
}

#[test]
fn preview_long_title_is_cut_to_fifty() {
    let mut session = make_test_session();
    session.custom_title = Some("t".repeat(80));
    assert_eq!(get_session_preview(&session), format!("{}...", "t".repeat(47)));
}

#[test]
fn test_project_from_dir_name() {
    let project = Project::from_dir_name("-home-pknull-Projects-threshold", "/test".to_string());
    assert_eq!(project.name, "threshold");
    assert_eq!(project.raw_name, "-home-pknull-Projects-threshold");
}

#[test]
fn test_project_from_simple_name() {
    let project = Project::from_dir_name("myproject", "/test".to_string());
    assert_eq!(project.name, "myproject");
}

#[test]
fn project_name_after_trailing_dash_is_empty() {
    let project = Project::from_dir_name("abc-", "/p".to_string());
    assert_eq!(project.name, "");
    assert_eq!(project.path, "/p");
}

#[test]
fn agent_sessions_are_flagged() {
    let s = Session::new(
        "agent-123".to_string(),
        "p".to_string(),
        "-p".to_string(),
        "/x/agent-123.jsonl".to_string(),
        1,
        0,
        true,
    );
    assert!(s.is_agent);
    assert!(s.has_directory);
    assert!(!make_test_session().is_agent);
    assert!(s.summary.is_none() && s.message_count.is_none() && s.search_content.is_none());
}

#[test]
fn project_path_is_decoded() {
    assert_eq!(decode_project_path("-home-pknull-dotfiles"), "/home/pknull/dotfiles");
    assert_eq!(decode_project_path("plain"), "/plain");
}

#[test]
fn project_names_are_sorted_and_distinct() {
    let mk = |p: &str| {
        Session::new("i".to_string(), p.to_string(), p.to_string(), "/x".to_string(), 0, 0, false)
    };
    let sessions = vec![mk("zeta"), mk("alpha"), mk("mid"), mk("alpha"), mk("zeta")];
    assert_eq!(get_project_names(&sessions), vec!["alpha", "mid", "zeta"]);
    assert!(get_project_names(&Vec::new()).is_empty());
}

#[test]
fn first_user_message_truncates_to_one_hundred() {
    let text = "q".repeat(130);
    let line = format!(
        r#"{{"type":"user","uuid":"u","timestamp":"2024-01-01T00:00:00Z","sessionId":"s","message":{{"role":"user","content":"{}"}}}}"#,
        text
    );
    let md = scan_lines(&vec![line]);
    let first = md.first_message.unwrap();
    assert_eq!(first.chars().count(), 100);
    assert_eq!(first, format!("{}...", "q".repeat(97)));
}

#[test]
fn scan_gathers_all_derived_fields() {
    let input = lines(&[
        r#"{"type":"summary","summary":"Old Summary"}"#,
        "garbage line",
        "",
        r#"{"type":"user","uuid":"u1","timestamp":"2024-01-01T00:00:00Z","sessionId":"s","message":{"role":"user","content":"<system-reminder>ignore</system-reminder>"}}"#,
        r#"{"type":"user","uuid":"u2","timestamp":"2024-01-01T00:01:00Z","sessionId":"s","message":{"role":"user","content":"  Hello\nWorld  "}}"#,
        r#"{"type":"assistant","uuid":"a1","timestamp":"2024-01-01T00:02:00Z","sessionId":"s","message":{"role":"assistant","content":[{"type":"text","text":"Sure"}]}}"#,
        r#"{"type":"custom-title","customTitle":"Named"}"#,
        r#"{"type":"summary","summary":"New Summary"}"#,
        r#"{"type":"system","timestamp":"2024-01-01T00:03:00Z"}"#,
    ]);
    let md = scan_lines(&input);
    assert_eq!(md.summary.as_deref(), Some("New Summary"));
    assert_eq!(md.custom_title.as_deref(), Some("Named"));
    assert_eq!(md.first_message.as_deref(), Some("Hello World"));
    assert_eq!(md.message_count, 3);
    assert_eq!(md.created, Some(1704067200000));
    let joined = "Old Summary <system-reminder>ignore</system-reminder>   Hello\nWorld   Sure New Summary";
    assert_eq!(md.search_content, joined.to_lowercase());
    let chars = "Old Summary".len()
        + "<system-reminder>ignore</system-reminder>".len()
        + "  Hello\nWorld  ".len()
        + "Sure".len()
        + "New Summary".len();
    assert_eq!(md.token_count, chars / 4);
}

#[test]
fn scan_of_nothing_is_empty() {
    let md = scan_lines(&Vec::new());
    assert_eq!(md.message_count, 0);
    assert_eq!(md.search_content, "");
    assert_eq!(md.token_count, 0);
    assert!(md.first_message.is_none() && md.created.is_none());
}

#[test]
fn scanning_twice_overwrites() {
    let mut s = make_test_session();
    let a = scan_lines(&lines(&[r#"{"type":"summary","summary":"One"}"#]));
    s.apply_metadata(a);
    assert_eq!(s.summary.as_deref(), Some("One"));
    let b = scan_lines(&lines(&[r#"{"type":"custom-title","customTitle":"T"}"#]));
    s.apply_metadata(b);
    assert!(s.summary.is_none());
    assert_eq!(s.custom_title.as_deref(), Some("T"));
    assert_eq!(s.message_count, Some(0));
}

#[test]
fn preview_messages_skip_noise() {
    let input = lines(&[
        r#"{"type":"user","uuid":"u1","timestamp":"2024-01-01T00:00:00Z","sessionId":"s","message":{"role":"user","content":"<context>x</context>"}}"#,
        r#"{"type":"user","uuid":"u2","timestamp":"2024-01-01T00:00:01Z","sessionId":"s","message":{"role":"user","content":"Question"}}"#,
        r#"{"type":"assistant","uuid":"a1","timestamp":"2024-01-01T00:00:02Z","sessionId":"s","message":{"role":"assistant","content":[]}}"#,
        r#"{"type":"assistant","uuid":"a2","timestamp":"2024-01-01T00:00:03Z","sessionId":"s","message":{"role":"assistant","content":[{"type":"thinking","thinking":"hmm"}]}}"#,
        r#"{"type":"system"}"#,
        r#"{"type":"system","timestamp":"2024-01-01T00:00:04Z"}"#,
        r#"{"type":"summary","summary":"S"}"#,
    ]);
    let msgs = messages_from_lines(&input);
    assert_eq!(msgs.len(), 3);
    assert_eq!(msgs[0].role, MessageRole::User);
    assert_eq!(msgs[0].content, "Question");
    assert_eq!(msgs[0].timestamp, 1704067201000);
    assert_eq!(msgs[1].role, MessageRole::Assistant);
    assert_eq!(msgs[1].content, "\u{1F4AD} hmm");
    assert_eq!(msgs[2].role, MessageRole::System);
    assert_eq!(msgs[2].content, "[System]");
}

#[test]
fn preview_buffer_lays_out_messages() {
    let input = lines(&[
        r#"{"type":"user","uuid":"u","timestamp":"2024-01-01T00:00:00Z","sessionId":"s","message":{"role":"user","content":"a\nb"}}"#,
        r#"{"type":"system","timestamp":"2024-01-01T10:20:30Z"}"#,
    ]);
    let msgs = messages_from_lines(&input);
    let out = ccsessionctl::preview::preview_lines(&msgs);
    assert_eq!(
        out,
        vec![
            "[User] 2024-01-01 00:00:00",
            "",
            "a",
            "b",
            "",
            "[System] 2024-01-01 10:20:30",
            "",
            "[System]",
            "",
        ]
    );
}

#[test]
fn undecodable_lines_change_nothing() {
    let good = [
        r#"{"type":"summary","summary":"S"}"#,
        r#"{"type":"user","uuid":"u","timestamp":"2024-01-01T00:00:00Z","sessionId":"s","message":{"role":"user","content":"hi"}}"#,
        r#"{"type":"system","timestamp":"2024-01-01T00:00:01Z"}"#,
    ];
    let noisy = [
        "",
        good[0],
        "{broken",
        r#"{"type":"user"}"#,
        good[1],
        "[]",
        good[2],
    ];
    let a = scan_lines(&lines(&good));
    let b = scan_lines(&lines(&noisy));
    assert_eq!(a.search_content, b.search_content);
    assert_eq!(a.message_count, b.message_count);
    assert_eq!(a.first_message, b.first_message);
    assert_eq!(a.summary, b.summary);
    assert_eq!(a.token_count, b.token_count);
    let ma = messages_from_lines(&lines(&good));
    let mb = messages_from_lines(&lines(&noisy));
    assert_eq!(ma.len(), mb.len());
    for (x, y) in ma.iter().zip(mb.iter()) {
        assert_eq!((x.role, x.timestamp, &x.content), (y.role, y.timestamp, &y.content));
    }
}

#[test]
fn preview_buffer_splits_crlf_lines() {
    let input = lines(&[
        r#"{"type":"user","uuid":"u","timestamp":"2024-01-01T00:00:00Z","sessionId":"s","message":{"role":"user","content":"one\r\ntwo\n"}}"#,
    ]);
    let out = ccsessionctl::preview::preview_lines(&messages_from_lines(&input));
    assert_eq!(out, vec!["[User] 2024-01-01 00:00:00", "", "one", "two", ""]);
}

#[test]
fn empty_summary_still_counts_as_searchable_text() {
    let md = scan_lines(&lines(&[
        r#"{"type":"summary","summary":""}"#,
        r#"{"type":"assistant","uuid":"a","timestamp":"2024-01-01T00:00:00Z","sessionId":"s","message":{"role":"assistant","content":[{"type":"text","text":"Hi"}]}}"#,
    ]));
    assert_eq!(md.search_content, " hi");
    assert_eq!(md.summary.as_deref(), Some(""));
    assert_eq!(md.token_count, 0);
}
