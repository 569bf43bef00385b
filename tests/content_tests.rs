use ccsessionctl::content::{ContentBlock, MessageContent};

fn json(text: &str) -> serde_json::Value {
    serde_json::from_str(text).unwrap()
}

#[test]
fn test_is_system_content_empty() {
    let content = MessageContent::Text(String::new());
    assert!(content.is_system_content());
}

#[test]
fn test_is_system_content_system_reminder() {
    let content =
        MessageContent::Text("<system-reminder>hook success</system-reminder>".to_string());
    assert!(content.is_system_content());
}

#[test]
fn test_is_system_content_context_tag() {
    let content = MessageContent::Text("<context>some context here</context>".to_string());
    assert!(content.is_system_content());
}

#[test]
fn test_is_system_content_regular_user_message() {
    let content = MessageContent::Text("Hello, can you help me with this code?".to_string());
    assert!(!content.is_system_content());
}

#[test]
fn test_is_system_content_html_from_user() {
    let content = MessageContent::Text("<html><body>test</body></html>".to_string());
    assert!(!content.is_system_content());
}

#[test]
fn test_is_system_content_xml_from_user() {
    let content = MessageContent::Text("<config><setting>value</setting></config>".to_string());
    assert!(!content.is_system_content());
}

#[test]
fn test_is_system_content_angle_bracket_text() {
    let content = MessageContent::Text("< 5 means less than five".to_string());
    assert!(!content.is_system_content());
}

#[test]
fn test_is_system_content_case_insensitive() {
    let content = MessageContent::Text("<SYSTEM-REMINDER>test</SYSTEM-REMINDER>".to_string());
    assert!(content.is_system_content());
}

#[test]
fn system_content_in_structured_blocks() {
    let content = MessageContent::Structured(vec![ContentBlock::Text {
        text: "<Env>linux</Env>".to_string(),
    }]);
    assert!(content.is_system_content());
    let only_other = MessageContent::Structured(vec![ContentBlock::Other]);
    assert!(only_other.is_system_content());
}

#[test]
fn text_block_renders_itself() {
    let b = ContentBlock::Text { text: "hi there".to_string() };
    assert_eq!(b.as_text().unwrap(), "hi there");
}

#[test]
fn thinking_block_gets_marker() {
    let b = ContentBlock::Thinking { thinking: "pondering".to_string() };
    assert_eq!(b.as_text().unwrap(), "\u{1F4AD} pondering");
}

#[test]
fn other_block_renders_nothing() {
    assert!(ContentBlock::Other.as_text().is_none());
}

#[test]
fn tool_use_without_input() {
    let b = ContentBlock::ToolUse { name: "Read".to_string(), input: None };
    assert_eq!(b.as_text().unwrap(), "\u{1F527} Read");
}

#[test]
fn tool_use_prefers_command_over_pattern() {
    let b = ContentBlock::ToolUse {
        name: "Bash".to_string(),
        input: Some(json(r#"{"pattern": "p", "command": "ls -la"}"#)),
    };
    assert_eq!(b.as_text().unwrap(), "\u{1F527} Bash \"ls -la\"");
}

#[test]
fn tool_use_falls_back_to_file_path() {
    let b = ContentBlock::ToolUse {
        name: "Edit".to_string(),
        input: Some(json(r#"{"file_path": "/a/b.rs", "other": 1}"#)),
    };
    assert_eq!(b.as_text().unwrap(), "\u{1F527} Edit \"/a/b.rs\"");
}

#[test]
fn tool_use_non_string_command_shows_no_preview() {
    let b = ContentBlock::ToolUse {
        name: "Bash".to_string(),
        input: Some(json(r#"{"command": 5, "pattern": "x"}"#)),
    };
    assert_eq!(b.as_text().unwrap(), "\u{1F527} Bash");
}

#[test]
fn tool_use_long_command_is_cut_to_sixty() {
    let cmd = "x".repeat(61);
    let input = serde_json::Value::Object(
        [("command".to_string(), serde_json::Value::String(cmd.clone()))].into_iter().collect(),
    );
    let b = ContentBlock::ToolUse { name: "Bash".to_string(), input: Some(input) };
    let expected = format!("\u{1F527} Bash \"{}...\"", "x".repeat(57));
    assert_eq!(b.as_text().unwrap(), expected);
    let exact = serde_json::Value::Object(
        [("command".to_string(), serde_json::Value::String("y".repeat(60)))].into_iter().collect(),
    );
    let b2 = ContentBlock::ToolUse { name: "Bash".to_string(), input: Some(exact) };
    assert_eq!(b2.as_text().unwrap(), format!("\u{1F527} Bash \"{}\"", "y".repeat(60)));
}

#[test]
fn tool_result_joins_text_items() {
    let b = ContentBlock::ToolResult {
        content: json(r#"[{"type":"text","text":"one"},{"type":"image"},{"text":"two"}]"#),
    };
    assert_eq!(b.as_text().unwrap(), "\u{1F4CB} one\ntwo");
}

#[test]
fn tool_result_plain_string_and_fallback() {
    let s = ContentBlock::ToolResult { content: json(r#""done""#) };
    assert_eq!(s.as_text().unwrap(), "\u{1F4CB} done");
    let n = ContentBlock::ToolResult { content: json("42") };
    assert_eq!(n.as_text().unwrap(), "\u{1F4CB} (result)");
    let empty = ContentBlock::ToolResult { content: json("[]") };
    assert_eq!(empty.as_text().unwrap(), "\u{1F4CB} ");
    let no_text = ContentBlock::ToolResult { content: json("[{}]") };
    assert_eq!(no_text.as_text().unwrap(), "\u{1F4CB} ");
    let obj = ContentBlock::ToolResult { content: json(r#"{"text":"x"}"#) };
    assert_eq!(obj.as_text().unwrap(), "\u{1F4CB} (result)");
}

#[test]
fn tool_result_long_text_is_cut_to_two_hundred() {
    let long = "z".repeat(250);
    let b = ContentBlock::ToolResult { content: serde_json::Value::String(long) };
    let out = b.as_text().unwrap();
    assert_eq!(out, format!("\u{1F4CB} {}...", "z".repeat(197)));
}

#[test]
fn structured_content_joins_renderings_by_newline() {
    let content = MessageContent::Structured(vec![
        ContentBlock::Text { text: "a".to_string() },
        ContentBlock::Other,
        ContentBlock::Text { text: "b".to_string() },
    ]);
    assert_eq!(content.as_text(), "a\nb");
}

#[test]
fn extraction_is_repeatable() {
    let b = ContentBlock::ToolResult { content: json(r#"[{"text":"same"}]"#) };
    assert_eq!(b.as_text(), b.as_text());
}

#[test]
fn claude_md_tag_matches_in_any_case() {
    let content = MessageContent::Text("<claudeMd>project notes</claudeMd>".to_string());
    assert!(content.is_system_content());
    let lower = MessageContent::Text("<claudemd>x".to_string());
    assert!(lower.is_system_content());
}
