use cc_sessions_viewer::models::{Message, MessageRole, SessionInfo, TimeFilter};
use chrono::TimeZone;

// ============================================================
// TimeFilter
// ============================================================

#[test]
fn time_filter_next_cycle() {
    let start = TimeFilter::Yesterday;
    let step1 = start.next();
    assert_eq!(step1, TimeFilter::Week);
    let step2 = step1.next();
    assert_eq!(step2, TimeFilter::Month);
    let step3 = step2.next();
    assert_eq!(step3, TimeFilter::All);
    let step4 = step3.next();
    assert_eq!(step4, TimeFilter::Yesterday);
}

#[test]
fn time_filter_prev_cycle() {
    let start = TimeFilter::All;
    let step1 = start.prev();
    assert_eq!(step1, TimeFilter::Month);
    let step2 = step1.prev();
    assert_eq!(step2, TimeFilter::Week);
    let step3 = step2.prev();
    assert_eq!(step3, TimeFilter::Yesterday);
    let step4 = step3.prev();
    assert_eq!(step4, TimeFilter::All);
}

#[test]
fn time_filter_next_prev_inverse() {
    for &filter in TimeFilter::all_filters().iter() {
        assert_eq!(filter.next().prev(), filter);
        assert_eq!(filter.prev().next(), filter);
    }
}

#[test]
fn time_filter_label() {
    assert_eq!(TimeFilter::Yesterday.label(), "Yesterday");
    assert_eq!(TimeFilter::Week.label(), "Week");
    assert_eq!(TimeFilter::Month.label(), "Month");
    assert_eq!(TimeFilter::All.label(), "All");
}

#[test]
fn time_filter_all_filters_length() {
    assert_eq!(TimeFilter::all_filters().len(), 4);
}

#[test]
fn time_filter_all_filters_contains_all_variants() {
    let filters = TimeFilter::all_filters();
    assert!(filters.contains(&TimeFilter::Yesterday));
    assert!(filters.contains(&TimeFilter::Week));
    assert!(filters.contains(&TimeFilter::Month));
    assert!(filters.contains(&TimeFilter::All));
}

// ============================================================
// Message
// ============================================================

fn make_message(role: MessageRole, timestamp: Option<i64>) -> Message {
    Message { role, text: String::new(), timestamp, tool_name: None }
}

#[test]
fn message_role_label_user() {
    assert_eq!(make_message(MessageRole::User, None).role_label(), "USER");
}

#[test]
fn message_role_label_assistant() {
    assert_eq!(make_message(MessageRole::Assistant, None).role_label(), "ASSISTANT");
}

#[test]
fn message_role_label_system() {
    assert_eq!(make_message(MessageRole::System, None).role_label(), "SYSTEM");
}

#[test]
fn message_role_label_tool_use() {
    assert_eq!(make_message(MessageRole::ToolUse, None).role_label(), "TOOL");
}

#[test]
fn message_role_label_tool_result() {
    assert_eq!(make_message(MessageRole::ToolResult, None).role_label(), "RESULT");
}

#[test]
fn message_role_label_progress() {
    assert_eq!(make_message(MessageRole::Progress, None).role_label(), "PROGRESS");
}

#[test]
fn message_timestamp_str_none() {
    let msg = make_message(MessageRole::User, None);
    assert_eq!(msg.timestamp_str(), "");
}

#[test]
fn message_timestamp_str_some() {
    let dt = chrono::Utc.with_ymd_and_hms(2024, 1, 15, 10, 30, 0).unwrap();
    let msg = make_message(MessageRole::User, Some(dt.timestamp_millis()));
    assert_eq!(msg.timestamp_str(), "2024-01-15 10:30:00");
}

// ============================================================
// SessionInfo
// ============================================================

fn make_session(timestamp: Option<i64>) -> SessionInfo {
    SessionInfo {
        session_id: String::new(),
        project_name: String::new(),
        preview: String::new(),
        timestamp,
        message_count: 0,
        git_branch: String::new(),
        summary: String::new(),
    }
}

#[test]
fn session_info_timestamp_str_none() {
    let session = make_session(None);
    assert_eq!(session.timestamp_str(), "");
}

#[test]
fn session_info_timestamp_str_some() {
    let dt = chrono::Utc.with_ymd_and_hms(2024, 1, 15, 10, 30, 0).unwrap();
    let session = make_session(Some(dt.timestamp_millis()));
    assert_eq!(session.timestamp_str(), "2024-01-15 10:30:00");
}
