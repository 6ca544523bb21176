use cc_sessions_viewer::models::{Message, MessageRole, ProjectInfo, SearchResult, SessionInfo, TimeFilter};
use cc_sessions_viewer::state::{App, Screen};
use cc_sessions_viewer::time::now_millis;

fn make_project(name: &str) -> ProjectInfo {
    ProjectInfo {
        dir_name: name.to_string(),
        original_path: format!("/path/{}", name),
        session_count: 0,
    }
}

fn make_session(id: &str) -> SessionInfo {
    SessionInfo {
        session_id: id.to_string(),
        project_name: "test".to_string(),
        preview: format!("Preview {}", id),
        timestamp: Some(now_millis()),
        message_count: 0,
        git_branch: String::new(),
        summary: String::new(),
    }
}

fn make_message(role: MessageRole, text: &str) -> Message {
    Message { role, text: text.to_string(), timestamp: None, tool_name: None }
}

// ===== navigation =====

#[test]
fn navigate_down_project_list() {
    let mut app = App::with_projects(vec![make_project("a"), make_project("b"), make_project("c")]);
    assert_eq!(app.selected_project, 0);
    app.navigate_down();
    assert_eq!(app.selected_project, 1);
    app.navigate_down();
    assert_eq!(app.selected_project, 2);
}

#[test]
fn navigate_up_project_list() {
    let mut app = App::with_projects(vec![make_project("a"), make_project("b"), make_project("c")]);
    app.selected_project = 2;
    app.navigate_up();
    assert_eq!(app.selected_project, 1);
    app.navigate_up();
    assert_eq!(app.selected_project, 0);
}

#[test]
fn navigate_down_session_list() {
    let mut app = App::with_projects(vec![make_project("a")]);
    app.set_sessions(vec![make_session("s1"), make_session("s2"), make_session("s3")]);
    assert_eq!(app.selected_session, 0);
    app.navigate_down();
    assert_eq!(app.selected_session, 1);
    app.navigate_down();
    assert_eq!(app.selected_session, 2);
}

#[test]
fn navigate_up_session_list() {
    let mut app = App::with_projects(vec![make_project("a")]);
    app.set_sessions(vec![make_session("s1"), make_session("s2"), make_session("s3")]);
    app.selected_session = 2;
    app.navigate_up();
    assert_eq!(app.selected_session, 1);
    app.navigate_up();
    assert_eq!(app.selected_session, 0);
}

#[test]
fn navigate_down_session_detail() {
    let mut app = App::with_projects(vec![make_project("a")]);
    app.set_messages(vec![
        make_message(MessageRole::User, "hello"),
        make_message(MessageRole::Assistant, "hi"),
    ]);
    assert_eq!(app.scroll_offset, 0);
    app.navigate_down();
    assert_eq!(app.scroll_offset, 1);
    app.navigate_down();
    assert_eq!(app.scroll_offset, 2);
}

#[test]
fn navigate_up_session_detail() {
    let mut app = App::with_projects(vec![make_project("a")]);
    app.set_messages(vec![
        make_message(MessageRole::User, "hello"),
        make_message(MessageRole::Assistant, "hi"),
    ]);
    app.scroll_offset = 5;
    app.navigate_up();
    assert_eq!(app.scroll_offset, 4);
    app.navigate_up();
    assert_eq!(app.scroll_offset, 3);
}

#[test]
fn navigate_down_empty_project_list_no_panic() {
    let mut app = App::with_projects(vec![]);
    app.navigate_down();
    assert_eq!(app.selected_project, 0);
}

#[test]
fn navigate_down_empty_session_list_no_panic() {
    let mut app = App::with_projects(vec![]);
    app.set_sessions(vec![]);
    app.navigate_down();
    assert_eq!(app.selected_session, 0);
}

#[test]
fn navigate_up_at_top_stays_zero() {
    let mut app = App::with_projects(vec![make_project("a"), make_project("b")]);
    assert_eq!(app.selected_project, 0);
    app.navigate_up();
    assert_eq!(app.selected_project, 0);
}

#[test]
fn navigate_down_at_bottom_stays_max() {
    let mut app = App::with_projects(vec![make_project("a"), make_project("b"), make_project("c")]);
    app.selected_project = 2;
    app.navigate_down();
    assert_eq!(app.selected_project, 2);
}

#[test]
fn navigate_up_session_list_at_top_stays_zero() {
    let mut app = App::with_projects(vec![make_project("a")]);
    app.set_sessions(vec![make_session("s1"), make_session("s2")]);
    assert_eq!(app.selected_session, 0);
    app.navigate_up();
    assert_eq!(app.selected_session, 0);
}

#[test]
fn navigate_down_session_list_at_bottom_stays_max() {
    let mut app = App::with_projects(vec![make_project("a")]);
    app.set_sessions(vec![make_session("s1"), make_session("s2")]);
    app.selected_session = 1;
    app.navigate_down();
    assert_eq!(app.selected_session, 1);
}

#[test]
fn navigate_up_session_detail_at_zero_stays_zero() {
    let mut app = App::with_projects(vec![make_project("a")]);
    app.set_messages(vec![make_message(MessageRole::User, "hi")]);
    assert_eq!(app.scroll_offset, 0);
    app.navigate_up();
    assert_eq!(app.scroll_offset, 0);
}

// ===== half pages =====

#[test]
fn half_page_down_project_list() {
    let projects: Vec<ProjectInfo> = (0..20).map(|i| make_project(&format!("p{}", i))).collect();
    let mut app = App::with_projects(projects);
    app.terminal_height = 24;
    assert_eq!(app.selected_project, 0);
    app.half_page_down();
    assert_eq!(app.selected_project, 12);
}

#[test]
fn half_page_up_project_list() {
    let projects: Vec<ProjectInfo> = (0..20).map(|i| make_project(&format!("p{}", i))).collect();
    let mut app = App::with_projects(projects);
    app.terminal_height = 24;
    app.selected_project = 15;
    app.half_page_up();
    assert_eq!(app.selected_project, 3);
}

#[test]
fn half_page_down_session_list() {
    let mut app = App::with_projects(vec![make_project("a")]);
    let sessions: Vec<SessionInfo> = (0..20).map(|i| make_session(&format!("s{}", i))).collect();
    app.set_sessions(sessions);
    app.terminal_height = 24;
    assert_eq!(app.selected_session, 0);
    app.half_page_down();
    assert_eq!(app.selected_session, 12);
}

#[test]
fn half_page_up_session_list() {
    let mut app = App::with_projects(vec![make_project("a")]);
    let sessions: Vec<SessionInfo> = (0..20).map(|i| make_session(&format!("s{}", i))).collect();
    app.set_sessions(sessions);
    app.terminal_height = 24;
    app.selected_session = 15;
    app.half_page_up();
    assert_eq!(app.selected_session, 3);
}

#[test]
fn half_page_down_session_detail() {
    let mut app = App::with_projects(vec![make_project("a")]);
    app.set_messages(vec![make_message(MessageRole::User, "hi")]);
    app.terminal_height = 24;
    assert_eq!(app.scroll_offset, 0);
    app.half_page_down();
    assert_eq!(app.scroll_offset, 12);
}

#[test]
fn half_page_up_session_detail() {
    let mut app = App::with_projects(vec![make_project("a")]);
    app.set_messages(vec![make_message(MessageRole::User, "hi")]);
    app.terminal_height = 24;
    app.scroll_offset = 20;
    app.half_page_up();
    assert_eq!(app.scroll_offset, 8);
}

#[test]
fn half_page_down_clamps_project_list() {
    let mut app = App::with_projects(vec![make_project("a"), make_project("b"), make_project("c")]);
    app.terminal_height = 24;
    app.half_page_down();
    assert_eq!(app.selected_project, 2);
}

#[test]
fn half_page_down_clamps_session_list() {
    let mut app = App::with_projects(vec![make_project("a")]);
    app.set_sessions(vec![make_session("s1"), make_session("s2"), make_session("s3")]);
    app.terminal_height = 24;
    app.half_page_down();
    assert_eq!(app.selected_session, 2);
}

#[test]
fn half_page_up_clamps_at_zero() {
    let mut app = App::with_projects(vec![make_project("a"), make_project("b")]);
    app.terminal_height = 24;
    app.selected_project = 3;
    app.half_page_up();
    assert_eq!(app.selected_project, 0);
}

#[test]
fn scrolling_follows_the_selection() {
    let projects: Vec<ProjectInfo> = (0..10).map(|i| make_project(&format!("p{}", i))).collect();
    let mut app = App::with_projects(projects);
    // 3 visible rows in the project table
    app.terminal_height = 8;
    for _ in 0..5 {
        app.navigate_down();
    }
    assert_eq!(app.selected_project, 5);
    assert_eq!(app.project_scroll_offset, 3);
    for _ in 0..5 {
        app.navigate_up();
    }
    assert_eq!(app.selected_project, 0);
    assert_eq!(app.project_scroll_offset, 0);
}

// ===== go_to_top / go_to_bottom =====

#[test]
fn go_to_top_project_list() {
    let mut app = App::with_projects(vec![make_project("a"), make_project("b"), make_project("c")]);
    app.selected_project = 2;
    app.go_to_top();
    assert_eq!(app.selected_project, 0);
}

#[test]
fn go_to_top_session_list() {
    let mut app = App::with_projects(vec![make_project("a")]);
    app.set_sessions(vec![make_session("s1"), make_session("s2"), make_session("s3")]);
    app.selected_session = 2;
    app.go_to_top();
    assert_eq!(app.selected_session, 0);
}

#[test]
fn go_to_top_session_detail() {
    let mut app = App::with_projects(vec![make_project("a")]);
    app.set_messages(vec![make_message(MessageRole::User, "hi")]);
    app.scroll_offset = 100;
    app.go_to_top();
    assert_eq!(app.scroll_offset, 0);
}

#[test]
fn go_to_bottom_project_list() {
    let mut app = App::with_projects(vec![make_project("a"), make_project("b"), make_project("c")]);
    app.go_to_bottom();
    assert_eq!(app.selected_project, 2);
}

#[test]
fn go_to_bottom_session_list() {
    let mut app = App::with_projects(vec![make_project("a")]);
    app.set_sessions(vec![make_session("s1"), make_session("s2"), make_session("s3")]);
    app.go_to_bottom();
    assert_eq!(app.selected_session, 2);
}

#[test]
fn go_to_bottom_session_detail() {
    let mut app = App::with_projects(vec![make_project("a")]);
    app.set_messages(vec![make_message(MessageRole::User, "hi")]);
    app.go_to_bottom();
    assert!(app.scroll_offset > 0);
}

#[test]
fn go_to_top_empty_project_list_no_panic() {
    let mut app = App::with_projects(vec![]);
    app.go_to_top();
    assert_eq!(app.selected_project, 0);
}

#[test]
fn go_to_bottom_empty_project_list_no_panic() {
    let mut app = App::with_projects(vec![]);
    app.go_to_bottom();
    assert_eq!(app.selected_project, 0);
}

#[test]
fn go_to_top_empty_session_list_no_panic() {
    let mut app = App::with_projects(vec![]);
    app.set_sessions(vec![]);
    app.go_to_top();
    assert_eq!(app.selected_session, 0);
}

#[test]
fn go_to_bottom_empty_session_list_no_panic() {
    let mut app = App::with_projects(vec![]);
    app.set_sessions(vec![]);
    app.go_to_bottom();
    assert_eq!(app.selected_session, 0);
}

// ===== go_back =====

#[test]
fn go_back_from_project_list_sets_should_quit() {
    let mut app = App::with_projects(vec![make_project("a")]);
    assert_eq!(app.screen, Screen::ProjectList);
    app.go_back();
    assert!(app.should_quit);
}

#[test]
fn go_back_from_session_list_to_project_list() {
    let mut app = App::with_projects(vec![make_project("a")]);
    app.set_sessions(vec![make_session("s1")]);
    assert_eq!(app.screen, Screen::SessionList);
    app.selected_session = 1;
    app.go_back();
    assert_eq!(app.screen, Screen::ProjectList);
    assert_eq!(app.selected_session, 0);
}

#[test]
fn go_back_from_session_detail_to_session_list() {
    let mut app = App::with_projects(vec![make_project("a")]);
    app.set_sessions(vec![make_session("s1")]);
    app.set_messages(vec![make_message(MessageRole::User, "hi")]);
    assert_eq!(app.screen, Screen::SessionDetail);
    app.go_back();
    assert_eq!(app.screen, Screen::SessionList);
    assert_eq!(app.scroll_offset, 0);
}

// ===== time filter =====

#[test]
fn cycle_filter_next_order() {
    let mut app = App::with_projects(vec![make_project("a")]);
    app.set_sessions(vec![make_session("s1")]);
    assert_eq!(app.time_filter, TimeFilter::All);
    app.cycle_filter_next();
    assert_eq!(app.time_filter, TimeFilter::Yesterday);
    app.cycle_filter_next();
    assert_eq!(app.time_filter, TimeFilter::Week);
    app.cycle_filter_next();
    assert_eq!(app.time_filter, TimeFilter::Month);
    app.cycle_filter_next();
    assert_eq!(app.time_filter, TimeFilter::All);
}

#[test]
fn cycle_filter_prev_order() {
    let mut app = App::with_projects(vec![make_project("a")]);
    app.set_sessions(vec![make_session("s1")]);
    assert_eq!(app.time_filter, TimeFilter::All);
    app.cycle_filter_prev();
    assert_eq!(app.time_filter, TimeFilter::Month);
    app.cycle_filter_prev();
    assert_eq!(app.time_filter, TimeFilter::Week);
    app.cycle_filter_prev();
    assert_eq!(app.time_filter, TimeFilter::Yesterday);
    app.cycle_filter_prev();
    assert_eq!(app.time_filter, TimeFilter::All);
}

#[test]
fn cycle_filter_resets_selected_session() {
    let mut app = App::with_projects(vec![make_project("a")]);
    app.set_sessions(vec![make_session("s1"), make_session("s2"), make_session("s3")]);
    app.selected_session = 2;
    app.cycle_filter_next();
    assert_eq!(app.selected_session, 0);
}

#[test]
fn cycle_filter_prev_resets_selected_session() {
    let mut app = App::with_projects(vec![make_project("a")]);
    app.set_sessions(vec![make_session("s1"), make_session("s2"), make_session("s3")]);
    app.selected_session = 2;
    app.cycle_filter_prev();
    assert_eq!(app.selected_session, 0);
}

// ===== set_sessions / set_messages =====

#[test]
fn set_sessions_updates_state() {
    let mut app = App::with_projects(vec![make_project("a")]);
    assert_eq!(app.screen, Screen::ProjectList);
    let sessions = vec![make_session("s1"), make_session("s2")];
    app.set_sessions(sessions);
    assert_eq!(app.screen, Screen::SessionList);
    assert_eq!(app.sessions.len(), 2);
    assert_eq!(app.filtered_sessions.len(), 2);
    assert_eq!(app.selected_session, 0);
    assert_eq!(app.scroll_offset, 0);
}

#[test]
fn set_sessions_applies_filter() {
    let mut app = App::with_projects(vec![make_project("a")]);
    app.time_filter = TimeFilter::Yesterday;
    let mut old_session = make_session("old");
    old_session.timestamp = Some(now_millis() - 10 * 24 * 60 * 60 * 1000);
    let recent_session = make_session("recent");
    app.set_sessions(vec![old_session, recent_session]);
    assert_eq!(app.sessions.len(), 2);
    assert_eq!(app.filtered_sessions.len(), 1);
    assert_eq!(app.filtered_sessions[0].session_id, "recent");
}

#[test]
fn set_messages_updates_state() {
    let mut app = App::with_projects(vec![make_project("a")]);
    assert_eq!(app.screen, Screen::ProjectList);
    app.scroll_offset = 10;
    let messages = vec![
        make_message(MessageRole::User, "hello"),
        make_message(MessageRole::Assistant, "world"),
    ];
    app.set_messages(messages);
    assert_eq!(app.screen, Screen::SessionDetail);
    assert_eq!(app.messages.len(), 2);
    assert_eq!(app.scroll_offset, 0);
}

// ===== safety on empty lists =====

#[test]
fn empty_projects_all_operations_safe() {
    let mut app = App::with_projects(vec![]);
    app.navigate_down();
    app.navigate_up();
    app.half_page_down();
    app.half_page_up();
    app.go_to_top();
    app.go_to_bottom();
    app.go_back();
    assert!(app.should_quit);
}

#[test]
fn empty_sessions_all_operations_safe() {
    let mut app = App::with_projects(vec![make_project("a")]);
    app.set_sessions(vec![]);
    app.navigate_down();
    app.navigate_up();
    app.half_page_down();
    app.half_page_up();
    app.go_to_top();
    app.go_to_bottom();
    app.cycle_filter_next();
    app.cycle_filter_prev();
    app.go_back();
    assert_eq!(app.screen, Screen::ProjectList);
}

#[test]
fn empty_messages_all_operations_safe() {
    let mut app = App::with_projects(vec![make_project("a")]);
    app.set_messages(vec![]);
    app.navigate_down();
    app.navigate_up();
    app.half_page_down();
    app.half_page_up();
    app.go_to_top();
    app.go_to_bottom();
    app.go_back();
    assert_eq!(app.screen, Screen::SessionList);
}

// ===== incremental search =====

#[test]
fn start_search_activates() {
    let mut app = App::with_projects(vec![make_project("a")]);
    assert!(!app.search_active);
    app.start_search();
    assert!(app.search_active);
    assert!(app.search_query.is_empty());
}

#[test]
fn cancel_search_restores_all() {
    let mut app = App::with_projects(vec![
        make_project("alpha"),
        make_project("beta"),
        make_project("gamma"),
    ]);
    app.start_search();
    app.search_push('z');
    app.cancel_search();
    assert!(!app.search_active);
    assert!(app.search_query.is_empty());
    assert_eq!(app.displayed_projects.len(), 3);
}

#[test]
fn confirm_search_keeps_filter() {
    let mut app = App::with_projects(vec![
        make_project("alpha"),
        make_project("beta"),
        make_project("gamma"),
    ]);
    app.start_search();
    app.search_push('a');
    let filtered_count = app.displayed_projects.len();
    app.confirm_search();
    assert!(!app.search_active);
    assert_eq!(app.displayed_projects.len(), filtered_count);
}

#[test]
fn search_push_filters_projects() {
    let mut app = App::with_projects(vec![
        make_project("alpha"),
        make_project("beta"),
        make_project("gamma"),
    ]);
    app.start_search();
    app.search_push('b');
    app.search_push('e');
    app.search_push('t');
    app.search_push('a');
    assert!(app.displayed_projects.len() <= 3);
    let has_beta = app.displayed_projects.iter().any(|p| p.dir_name == "beta");
    assert!(has_beta);
}

#[test]
fn search_pop_expands_results() {
    let mut app = App::with_projects(vec![
        make_project("alpha"),
        make_project("beta"),
        make_project("gamma"),
    ]);
    app.start_search();
    app.search_push('b');
    app.search_push('e');
    app.search_push('t');
    app.search_push('a');
    let narrow_count = app.displayed_projects.len();
    app.search_pop();
    let wider_count = app.displayed_projects.len();
    assert!(wider_count >= narrow_count);
}

#[test]
fn search_on_session_detail_does_nothing() {
    let mut app = App::with_projects(vec![make_project("a")]);
    app.set_messages(vec![make_message(MessageRole::User, "hi")]);
    assert_eq!(app.screen, Screen::SessionDetail);
    app.start_search();
    assert!(!app.search_active);
}

#[test]
fn search_resets_selected_project() {
    let mut app = App::with_projects(vec![
        make_project("alpha"),
        make_project("beta"),
        make_project("gamma"),
    ]);
    app.selected_project = 2;
    app.start_search();
    app.search_push('a');
    assert_eq!(app.selected_project, 0);
}

#[test]
fn navigate_with_search_uses_displayed_projects() {
    let mut app = App::with_projects(vec![
        make_project("alpha"),
        make_project("beta"),
        make_project("gamma"),
    ]);
    app.start_search();
    app.search_push('a');
    let count = app.displayed_projects.len();
    for _ in 0..count + 5 {
        app.navigate_down();
    }
    assert!(app.selected_project < count);
}

#[test]
fn search_filters_sessions_by_preview() {
    let mut app = App::with_projects(vec![make_project("a")]);
    let mut s1 = make_session("s1");
    s1.preview = "Fix authentication bug".to_string();
    let mut s2 = make_session("s2");
    s2.preview = "Add new feature".to_string();
    let mut s3 = make_session("s3");
    s3.preview = "Update documentation".to_string();
    app.set_sessions(vec![s1, s2, s3]);

    app.start_search();
    app.search_push('a');
    app.search_push('u');
    app.search_push('t');
    app.search_push('h');

    let has_auth = app.filtered_sessions.iter().any(|s| s.session_id == "s1");
    assert!(has_auth);
}

// ===== global search =====

fn make_search_result(id: &str, prompts: Vec<&str>) -> SearchResult {
    SearchResult {
        session_id: id.to_string(),
        project_path: format!("/path/{}", id),
        dir_name: format!("dir-{}", id),
        git_branch: "main".to_string(),
        created_at: "2026-01-15T10:00:00Z".to_string(),
        prompts: prompts.into_iter().map(String::from).collect(),
        best_match_prompt: String::new(),
        best_match_indices: Vec::new(),
    }
}

#[test]
fn enter_global_search_from_project_list() {
    let mut app = App::with_projects(vec![make_project("a")]);
    assert_eq!(app.screen, Screen::ProjectList);
    app.enter_global_search(vec![]);
    assert_eq!(app.screen, Screen::GlobalSearch);
}

#[test]
fn global_search_go_back_returns_to_project_list() {
    let mut app = App::with_projects(vec![make_project("a")]);
    app.enter_global_search(vec![]);
    assert_eq!(app.screen, Screen::GlobalSearch);
    app.go_back();
    assert_eq!(app.screen, Screen::ProjectList);
}

#[test]
fn global_search_fuzzy_filter() {
    let mut app = App::with_projects(vec![make_project("a")]);
    let searchable = vec![
        make_search_result("s1", vec!["JWT認証の実装", "テスト書いて"]),
        make_search_result("s2", vec!["デプロイの設定"]),
    ];
    app.enter_global_search(searchable);
    app.global_search_push('認');
    app.global_search_push('証');
    assert!(app.global_search_filtered.iter().any(|r| r.session_id == "s1"));
}

#[test]
fn global_search_navigate() {
    let mut app = App::with_projects(vec![make_project("a")]);
    let searchable = vec![make_search_result("s1", vec!["a"]), make_search_result("s2", vec!["b"])];
    app.enter_global_search(searchable);
    assert_eq!(app.global_search_selected, 0);
    app.navigate_down();
    assert_eq!(app.global_search_selected, 1);
    app.navigate_up();
    assert_eq!(app.global_search_selected, 0);
}

#[test]
fn global_search_copy_resume_cmd() {
    let mut app = App::with_projects(vec![make_project("a")]);
    let searchable = vec![make_search_result("abc-123-def", vec!["hello"])];
    app.enter_global_search(searchable);
    let cmd = app.get_resume_command("mycli");
    assert_eq!(cmd, Some("mycli --resume abc-123-def".to_string()));
}

#[test]
fn global_search_empty_query_restores_everything() {
    let mut app = App::with_projects(vec![make_project("a")]);
    let searchable = vec![
        make_search_result("s1", vec!["alpha"]),
        make_search_result("s2", vec!["beta"]),
    ];
    app.enter_global_search(searchable);
    app.global_search_push('x');
    assert!(app.global_search_filtered.len() < 2);
    app.global_search_pop();
    assert_eq!(app.global_search_filtered.len(), 2);
    assert_eq!(app.global_search_filtered[0].session_id, "s1");
    assert_eq!(app.global_search_filtered[1].session_id, "s2");
}
