use cc_sessions_viewer::indexer::{build_index_core, ProjectInput, SessionFileInput};
use cc_sessions_viewer::models::SearchResult;
use cc_sessions_viewer::parser::{
    list_sessions_from_files, list_sessions_from_index, original_path_from_sidecar,
    parse_session_content, session_info_from_content,
};
use cc_sessions_viewer::models::MessageRole;
use cc_sessions_viewer::search::{build_match_snippet, global_filter};
use cc_sessions_viewer::store::SessionIndex;

fn result(id: &str, prompts: Vec<&str>) -> SearchResult {
    SearchResult {
        session_id: id.to_string(),
        project_path: format!("/path/{}", id),
        dir_name: format!("dir-{}", id),
        git_branch: "main".to_string(),
        created_at: "2026-01-15T10:00:00Z".to_string(),
        prompts: prompts.into_iter().map(|p| p.to_string()).collect(),
        best_match_prompt: String::new(),
        best_match_indices: Vec::new(),
    }
}

#[test]
fn global_search_scenario_returns_matching_session() {
    // index two sessions, then query for "deploy"
    let mut index = SessionIndex::open_in_memory().unwrap();
    let sess1 = "{\"type\":\"user\",\"message\":{\"content\":\"JWT auth\"}}\n{\"type\":\"user\",\"message\":{\"content\":\"write tests\"}}";
    let sess2 = "{\"type\":\"user\",\"message\":{\"content\":\"deploy config\"}}";
    let projects = vec![ProjectInput {
        dir_name: "proj".to_string(),
        sidecar: None,
        files: vec![
            SessionFileInput {
                session_id: "sess-1".to_string(),
                mtime_millis: 1,
                content: sess1.to_string(),
            },
            SessionFileInput {
                session_id: "sess-2".to_string(),
                mtime_millis: 2,
                content: sess2.to_string(),
            },
        ],
    }];
    build_index_core(&mut index, &projects).unwrap();

    let sessions = index.search_all().unwrap();
    let results: Vec<SearchResult> = sessions
        .into_iter()
        .map(|s| SearchResult {
            session_id: s.session_id,
            project_path: s.project_path,
            dir_name: s.dir_name,
            git_branch: s.git_branch,
            created_at: s.created_at,
            prompts: s.prompts,
            best_match_prompt: String::new(),
            best_match_indices: Vec::new(),
        })
        .collect();

    let filtered = global_filter(&results, "deploy");
    assert_eq!(filtered.len(), 1);
    assert_eq!(filtered[0].session_id, "sess-2");
    assert_eq!(filtered[0].best_match_prompt, "deploy config");
    assert_eq!(filtered[0].best_match_indices, vec![0, 1, 2, 3, 4, 5]);
}

#[test]
fn global_search_is_subset_of_unfiltered() {
    let results = vec![
        result("s1", vec!["alpha beta"]),
        result("s2", vec!["gamma"]),
        result("s3", vec!["beta gamma"]),
    ];
    let filtered = global_filter(&results, "beta");
    assert!(filtered.len() <= results.len());
    for f in &filtered {
        assert!(results.iter().any(|r| r.session_id == f.session_id));
    }
    assert_eq!(filtered.len(), 2);
}

#[test]
fn global_search_matches_case_insensitively() {
    // the query and the prompt are lowercased before matching
    let results = vec![result("s1", vec!["Deploy NOW"])];
    let filtered = global_filter(&results, "dEpLoY n");
    assert_eq!(filtered.len(), 1);
    assert_eq!(filtered[0].best_match_prompt, "Deploy NOW");
    assert_eq!(filtered[0].best_match_indices, vec![0, 1, 2, 3, 4, 5, 6, 7]);
}

#[test]
fn global_search_falls_back_to_path_and_branch() {
    let mut r = result("s1", vec!["nothing here"]);
    r.git_branch = "feature/login".to_string();
    let results = vec![r];
    let filtered = global_filter(&results, "login");
    assert_eq!(filtered.len(), 1);
    assert_eq!(filtered[0].best_match_prompt, "nothing here");
    assert!(filtered[0].best_match_indices.is_empty());
}

#[test]
fn global_search_highlight_indices_select_the_query() {
    let results = vec![result("s1", vec!["say Hello World again"])];
    let filtered = global_filter(&results, "WORLD");
    assert_eq!(filtered.len(), 1);
    let f = &filtered[0];
    let chars: Vec<char> = f.best_match_prompt.chars().collect();
    let query_lower: Vec<char> = "world".chars().collect();
    assert_eq!(f.best_match_indices.len(), query_lower.len());
    for (k, &idx) in f.best_match_indices.iter().enumerate() {
        assert!(idx < chars.len());
        let lowered: Vec<char> = chars[idx].to_lowercase().collect();
        assert_eq!(lowered, vec![query_lower[k]]);
        if k > 0 {
            assert_eq!(idx, f.best_match_indices[k - 1] + 1);
        }
    }
}

#[test]
fn first_matching_prompt_wins() {
    let results = vec![result("s1", vec!["no hit", "the target word", "target again"])];
    let filtered = global_filter(&results, "target");
    assert_eq!(filtered.len(), 1);
    assert_eq!(filtered[0].best_match_prompt, "the target word");
    assert_eq!(filtered[0].best_match_indices, vec![4, 5, 6, 7, 8, 9]);
}

// ================================================================
// highlight snippet windowing
// ================================================================

fn snippet_text(s: &cc_sessions_viewer::search::Snippet) -> String {
    let mut out = String::new();
    for run in &s.runs {
        out.push_str(&run.text);
    }
    out
}

#[test]
fn snippet_without_indices_truncates() {
    let prompt = "abcdefghij";
    let s = build_match_snippet(prompt, &Vec::new(), 4);
    assert!(!s.leading_ellipsis);
    assert!(s.trailing_ellipsis);
    assert_eq!(snippet_text(&s), "abcd");
    assert_eq!(s.runs.len(), 1);
    assert!(!s.runs[0].matched);
}

#[test]
fn snippet_centers_on_the_match() {
    let prompt = "0123456789abcdefghij";
    let indices = vec![10, 11];
    let s = build_match_snippet(prompt, &indices, 6);
    // the window is centered on the match midpoint and cut at both sides
    assert!(s.leading_ellipsis);
    assert!(s.trailing_ellipsis);
    assert_eq!(snippet_text(&s), "789abc");
    // runs alternate: unmatched "789", matched "ab", unmatched "c"
    let flags: Vec<bool> = s.runs.iter().map(|r| r.matched).collect();
    assert_eq!(flags, vec![false, true, false]);
    assert_eq!(s.runs[1].text, "ab");
}

#[test]
fn snippet_fits_whole_prompt_without_markers() {
    let prompt = "hit me";
    let indices = vec![0, 1, 2];
    let s = build_match_snippet(prompt, &indices, 60);
    assert!(!s.leading_ellipsis);
    assert!(!s.trailing_ellipsis);
    assert_eq!(snippet_text(&s), "hit me");
    assert!(s.runs[0].matched);
    assert!(!s.runs[1].matched);
}

// ================================================================
// session listings from plain values
// ================================================================

#[test]
fn list_sessions_in_from_jsonl_files() {
    let jsonl_content = "{\"type\":\"user\",\"timestamp\":\"2024-01-15T10:30:00Z\",\"message\":{\"content\":\"hello\"}}\n{\"type\":\"assistant\",\"timestamp\":\"2024-01-15T10:31:00Z\",\"message\":{\"content\":\"hi there\"}}";
    let files = vec![("session-abc".to_string(), jsonl_content.to_string())];
    let result = list_sessions_from_files(&files, "my-project");
    assert_eq!(result.len(), 1);
    assert_eq!(result[0].session_id, "session-abc");
    assert_eq!(result[0].message_count, 2);
    assert_eq!(result[0].preview, "hello");
}

#[test]
fn list_sessions_in_from_index() {
    let index_content = "{\"entries\":[{\"sessionId\":\"sess-1\",\"firstPrompt\":\"First prompt\",\"created\":\"2024-01-15T10:30:00Z\",\"messageCount\":3,\"gitBranch\":\"main\",\"summary\":\"A session\"}]}";
    let result = list_sessions_from_index(index_content, "my-project");
    assert_eq!(result.len(), 1);
    assert_eq!(result[0].session_id, "sess-1");
    assert_eq!(result[0].preview, "First prompt");
    assert_eq!(result[0].message_count, 3);
}

#[test]
fn list_sessions_sorted_newest_first() {
    let old = "{\"type\":\"user\",\"timestamp\":\"2024-01-01T00:00:00Z\",\"message\":{\"content\":\"old\"}}";
    let new = "{\"type\":\"user\",\"timestamp\":\"2026-01-01T00:00:00Z\",\"message\":{\"content\":\"new\"}}";
    let files = vec![
        ("older".to_string(), old.to_string()),
        ("newer".to_string(), new.to_string()),
    ];
    let result = list_sessions_from_files(&files, "p");
    assert_eq!(result.len(), 2);
    assert_eq!(result[0].session_id, "newer");
    assert_eq!(result[1].session_id, "older");
}

#[test]
fn load_session_in_normal() {
    let jsonl_content = "{\"type\":\"user\",\"timestamp\":\"2024-01-15T10:30:00Z\",\"message\":{\"content\":\"hello\"}}\n{\"type\":\"assistant\",\"timestamp\":\"2024-01-15T10:31:00Z\",\"message\":{\"content\":\"hi there\"}}";
    let msgs = parse_session_content(jsonl_content);
    assert_eq!(msgs.len(), 2);
    assert_eq!(msgs[0].role, MessageRole::User);
    assert_eq!(msgs[0].text, "hello");
    assert_eq!(msgs[1].role, MessageRole::Assistant);
    assert_eq!(msgs[1].text, "hi there");
}

#[test]
fn session_scan_counts_only_user_and_assistant() {
    let content = "{\"type\":\"user\",\"message\":{\"content\":\"q\"}}\n{\"type\":\"system\",\"message\":{\"content\":\"s\"}}\n{\"type\":\"assistant\",\"message\":{\"content\":\"a\"}}\nnot json";
    let info = session_info_from_content("id", "proj", content);
    assert_eq!(info.message_count, 2);
    assert_eq!(info.preview, "q");
    assert_eq!(info.summary, "");
}

#[test]
fn sidecar_original_path_prefers_top_level() {
    let with_top = "{\"originalPath\":\"/top/path\",\"entries\":[{\"projectPath\":\"/entry/path\"}]}";
    assert_eq!(original_path_from_sidecar(with_top), Some("/top/path".to_string()));
    let only_entry = "{\"entries\":[{\"projectPath\":\"/entry/path\"}]}";
    assert_eq!(original_path_from_sidecar(only_entry), Some("/entry/path".to_string()));
    assert_eq!(original_path_from_sidecar("{broken"), None);
}
