use cc_sessions_viewer::json::{JsonNum, JsonValue};
use cc_sessions_viewer::models::MessageRole;
use cc_sessions_viewer::parser::{
    decode_project_path, extract_text_from_content, extract_tool_blocks, parse_index_entry,
    parse_jsonl_line, summarize_tool_use, truncate_str,
};
use cc_sessions_viewer::time::parse_timestamp;

fn obj(fields: Vec<(&str, JsonValue)>) -> JsonValue {
    JsonValue::Obj(fields.into_iter().map(|(k, v)| (k.to_string(), v)).collect())
}

fn s(text: &str) -> JsonValue {
    JsonValue::Str(text.to_string())
}

// ================================================================
// truncate_str
// ================================================================

#[test]
fn truncate_str_short() {
    assert_eq!(truncate_str("hello", 10), "hello");
}

#[test]
fn truncate_str_exact() {
    assert_eq!(truncate_str("hello", 5), "hello");
}

#[test]
fn truncate_str_long() {
    assert_eq!(truncate_str("hello world", 5), "hello...");
}

#[test]
fn truncate_str_multibyte() {
    assert_eq!(truncate_str("abcdef", 3), "abc...");
    let jp = "こんにちは世界";
    let result = truncate_str(jp, 3);
    assert_eq!(result, "こんに...");
}

// ================================================================
// decode_project_path
// ================================================================

#[test]
fn decode_project_path_github() {
    let input = "-Users-foo-src-github-com-org-repo";
    let result = decode_project_path(input);
    assert_eq!(result, "/Users/foo/src/github.com/org/repo");
}

#[test]
fn decode_project_path_gitlab() {
    let input = "-Users-foo-src-gitlab-com-org-repo";
    let result = decode_project_path(input);
    assert_eq!(result, "/Users/foo/src/gitlab.com/org/repo");
}

#[test]
fn decode_project_path_empty() {
    assert_eq!(decode_project_path(""), "");
}

// ================================================================
// parse_timestamp
// ================================================================

#[test]
fn parse_timestamp_valid() {
    let result = parse_timestamp(Some("2024-01-15T10:30:00Z"));
    assert!(result.is_some());
    let expected = "2024-01-15T10:30:00Z"
        .parse::<chrono::DateTime<chrono::Utc>>()
        .unwrap()
        .timestamp_millis();
    assert_eq!(result, Some(expected));
}

#[test]
fn parse_timestamp_none() {
    assert!(parse_timestamp(None).is_none());
}

#[test]
fn parse_timestamp_empty() {
    assert!(parse_timestamp(Some("")).is_none());
}

#[test]
fn parse_timestamp_invalid() {
    assert!(parse_timestamp(Some("invalid")).is_none());
}

// ================================================================
// extract_text_from_content
// ================================================================

#[test]
fn extract_text_from_content_string() {
    let v = s("hello");
    assert_eq!(extract_text_from_content(&v), "hello");
}

#[test]
fn extract_text_from_content_array_text_and_thinking() {
    let v = JsonValue::Arr(vec![
        obj(vec![("type", s("thinking")), ("thinking", s("hmm"))]),
        obj(vec![("type", s("text")), ("text", s("answer1"))]),
        obj(vec![("type", s("text")), ("text", s("answer2"))]),
    ]);
    assert_eq!(extract_text_from_content(&v), "answer1\nanswer2");
}

#[test]
fn extract_text_from_content_null() {
    let v = JsonValue::Null;
    assert_eq!(extract_text_from_content(&v), "");
}

// ================================================================
// extract_tool_blocks
// ================================================================

#[test]
fn extract_tool_blocks_mixed() {
    let v = JsonValue::Arr(vec![
        obj(vec![("type", s("text")), ("text", s("hello"))]),
        obj(vec![("type", s("tool_use")), ("name", s("Bash"))]),
        obj(vec![("type", s("tool_result")), ("content", s("ok"))]),
    ]);
    let blocks = extract_tool_blocks(&v);
    assert_eq!(blocks.len(), 2);
}

#[test]
fn extract_tool_blocks_non_array() {
    let v = s("hello");
    assert!(extract_tool_blocks(&v).is_empty());
}

#[test]
fn is_array_distinguishes_content_shapes() {
    assert!(JsonValue::Arr(vec![]).is_array());
    assert!(!s("hello").is_array());
    assert!(!JsonValue::Null.is_array());
}

// ================================================================
// summarize_tool_use
// ================================================================

#[test]
fn summarize_tool_use_bash_with_description() {
    let input = obj(vec![("description", s("List files")), ("command", s("ls -la"))]);
    assert_eq!(summarize_tool_use("Bash", &input), "[Bash] List files");
}

#[test]
fn summarize_tool_use_bash_no_description() {
    let input = obj(vec![("command", s("ls -la"))]);
    assert_eq!(summarize_tool_use("Bash", &input), "[Bash] ls -la");
}

#[test]
fn summarize_tool_use_read() {
    let input = obj(vec![("file_path", s("/path/to/file"))]);
    assert_eq!(summarize_tool_use("Read", &input), "[Read] /path/to/file");
}

#[test]
fn summarize_tool_use_unknown() {
    let input = obj(vec![]);
    assert_eq!(summarize_tool_use("CustomTool", &input), "[CustomTool]");
}

#[test]
fn summarize_tool_use_grep_default_path() {
    let input = obj(vec![("pattern", s("needle"))]);
    assert_eq!(summarize_tool_use("Grep", &input), "[Grep] needle in .");
}

// ================================================================
// parse_jsonl_line
// ================================================================

#[test]
fn parse_jsonl_line_user_message() {
    let line = r#"{"type":"user","timestamp":"2024-01-15T10:30:00Z","message":{"content":"hello"}}"#;
    let msgs = parse_jsonl_line(line);
    assert_eq!(msgs.len(), 1);
    assert_eq!(msgs[0].role, MessageRole::User);
    assert_eq!(msgs[0].text, "hello");
}

#[test]
fn parse_jsonl_line_assistant_text() {
    let line =
        r#"{"type":"assistant","timestamp":"2024-01-15T10:30:00Z","message":{"content":"response"}}"#;
    let msgs = parse_jsonl_line(line);
    assert_eq!(msgs.len(), 1);
    assert_eq!(msgs[0].role, MessageRole::Assistant);
    assert_eq!(msgs[0].text, "response");
}

#[test]
fn parse_jsonl_line_assistant_with_tool_use() {
    let line = r#"{"type":"assistant","timestamp":"2024-01-15T10:30:00Z","message":{"content":[{"type":"text","text":"Let me check"},{"type":"tool_use","name":"Read","input":{"file_path":"/tmp/test.txt"}}]}}"#;
    let msgs = parse_jsonl_line(line);
    assert_eq!(msgs.len(), 2);
    assert_eq!(msgs[0].role, MessageRole::Assistant);
    assert_eq!(msgs[0].text, "Let me check");
    assert_eq!(msgs[1].role, MessageRole::ToolUse);
    assert!(msgs[1].text.contains("[Read]"));
}

#[test]
fn parse_jsonl_line_system() {
    let line = r#"{"type":"system","subtype":"init","message":{"content":"System started"}}"#;
    let msgs = parse_jsonl_line(line);
    assert_eq!(msgs.len(), 1);
    assert_eq!(msgs[0].role, MessageRole::System);
    assert_eq!(msgs[0].text, "System started");
}

#[test]
fn parse_jsonl_line_system_empty_content_with_subtype() {
    let line = r#"{"type":"system","subtype":"init"}"#;
    let msgs = parse_jsonl_line(line);
    assert_eq!(msgs.len(), 1);
    assert_eq!(msgs[0].text, "[system: init]");
}

#[test]
fn parse_jsonl_line_empty() {
    assert!(parse_jsonl_line("").is_empty());
    assert!(parse_jsonl_line("   ").is_empty());
}

#[test]
fn parse_jsonl_line_invalid_json() {
    assert!(parse_jsonl_line("{invalid json}").is_empty());
}

#[test]
fn parse_line_scenario_user_hello_world() {
    let line = r#"{"type":"user","timestamp":"2026-01-15T10:00:00Z","message":{"content":"Hello world"}}"#;
    let msgs = parse_jsonl_line(line);
    assert_eq!(msgs.len(), 1);
    assert_eq!(msgs[0].role, MessageRole::User);
    assert_eq!(msgs[0].text, "Hello world");
}

#[test]
fn parse_jsonl_line_unknown_type() {
    let line = r#"{"type":"progress","data":{}}"#;
    assert!(parse_jsonl_line(line).is_empty());
}

#[test]
fn parse_jsonl_line_tool_result_number_content() {
    let line =
        r#"{"type":"user","message":{"content":[{"type":"tool_result","content":42}]}}"#;
    let msgs = parse_jsonl_line(line);
    assert_eq!(msgs.len(), 1);
    assert_eq!(msgs[0].role, MessageRole::ToolResult);
    assert_eq!(msgs[0].text, "42");
}

// ================================================================
// parse_index_entry
// ================================================================

#[test]
fn parse_index_entry_full() {
    let entry = obj(vec![
        ("sessionId", s("abc-123")),
        ("firstPrompt", s("Hello world")),
        ("created", s("2024-01-15T10:30:00Z")),
        ("messageCount", JsonValue::Num(JsonNum::UInt(5))),
        ("gitBranch", s("main")),
        ("summary", s("Test session")),
    ]);
    let info = parse_index_entry(&entry, "my-project");
    assert_eq!(info.session_id, "abc-123");
    assert_eq!(info.preview, "Hello world");
    assert!(info.timestamp.is_some());
    assert_eq!(info.message_count, 5);
    assert_eq!(info.git_branch, "main");
    assert_eq!(info.summary, "Test session");
    assert_eq!(info.project_name, "my-project");
}

#[test]
fn parse_index_entry_missing_fields() {
    let entry = obj(vec![]);
    let info = parse_index_entry(&entry, "proj");
    assert_eq!(info.session_id, "");
    assert_eq!(info.preview, "");
    assert!(info.timestamp.is_none());
    assert_eq!(info.message_count, 0);
    assert_eq!(info.git_branch, "");
    assert_eq!(info.summary, "");
}
