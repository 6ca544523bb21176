use cc_sessions_viewer::indexer::{build_index_core, ProjectInput, SessionFileInput};
use cc_sessions_viewer::store::{SearchableSession, SessionIndex};

fn file(session_id: &str, mtime_millis: i64, content: &str) -> SessionFileInput {
    SessionFileInput {
        session_id: session_id.to_string(),
        mtime_millis,
        content: content.to_string(),
    }
}

fn project(dir_name: &str, sidecar: Option<&str>, files: Vec<SessionFileInput>) -> ProjectInput {
    ProjectInput {
        dir_name: dir_name.to_string(),
        sidecar: sidecar.map(|s| s.to_string()),
        files,
    }
}

fn find<'a>(results: &'a [SearchableSession], id: &str) -> &'a SearchableSession {
    results.iter().find(|r| r.session_id == id).unwrap()
}

#[test]
fn building_an_empty_tree_succeeds_and_stores_nothing() {
    let mut index = SessionIndex::open_in_memory().unwrap();
    let projects: Vec<ProjectInput> = Vec::new();
    build_index_core(&mut index, &projects).unwrap();
    assert!(index.search_all().unwrap().is_empty());
    // a project without session files asks for no store work either
    let projects = vec![project("empty-proj", None, vec![])];
    build_index_core(&mut index, &projects).unwrap();
    assert!(index.search_all().unwrap().is_empty());
}

#[test]
fn build_index_from_single_session() {
    let mut index = SessionIndex::open_in_memory().unwrap();
    let jsonl = "{\"type\":\"user\",\"timestamp\":\"2026-01-15T10:00:00Z\",\"message\":{\"content\":\"Hello world\"}}\n{\"type\":\"assistant\",\"timestamp\":\"2026-01-15T10:01:00Z\",\"message\":{\"content\":\"Hi there\"}}\n{\"type\":\"user\",\"timestamp\":\"2026-01-15T10:02:00Z\",\"message\":{\"content\":\"How are you?\"}}";
    let projects = vec![project(
        "-Users-foo-src-github-com-org-repo",
        None,
        vec![file("sess-abc", 1000, jsonl)],
    )];

    build_index_core(&mut index, &projects).unwrap();

    let results = index.search_all().unwrap();
    assert_eq!(results.len(), 1);
    assert_eq!(results[0].session_id, "sess-abc");
    assert_eq!(results[0].dir_name, "-Users-foo-src-github-com-org-repo");
    assert_eq!(results[0].project_path, "/Users/foo/src/github.com/org/repo");
    assert_eq!(results[0].prompts.len(), 2);
    assert_eq!(results[0].prompts[0], "Hello world");
    assert_eq!(results[0].prompts[1], "How are you?");
}

#[test]
fn incremental_update_skips_unchanged() {
    let mut index = SessionIndex::open_in_memory().unwrap();
    let jsonl = "{\"type\":\"user\",\"timestamp\":\"2026-01-15T10:00:00Z\",\"message\":{\"content\":\"First\"}}";
    let projects = vec![project("-project", None, vec![file("sess-1", 1000, jsonl)])];

    build_index_core(&mut index, &projects).unwrap();
    let results = index.search_all().unwrap();
    assert_eq!(results.len(), 1);
    assert_eq!(results[0].prompts[0], "First");

    // second build over the unchanged tree: same modification time, so the
    // file is skipped and nothing changes
    build_index_core(&mut index, &projects).unwrap();
    let results = index.search_all().unwrap();
    assert_eq!(results.len(), 1);
    assert_eq!(results[0].prompts.len(), 1);
    assert_eq!(results[0].prompts[0], "First");
}

#[test]
fn uses_sessions_index_json_metadata() {
    let mut index = SessionIndex::open_in_memory().unwrap();
    let jsonl = "{\"type\":\"user\",\"timestamp\":\"2026-01-15T10:00:00Z\",\"message\":{\"content\":\"Hello\"}}";
    let sidecar = "{\"entries\":[{\"sessionId\":\"sess-meta\",\"projectPath\":\"/custom/path\",\"gitBranch\":\"feature-branch\",\"summary\":\"My summary\",\"firstPrompt\":\"Custom first prompt\",\"messageCount\":42,\"created\":\"2026-01-15T09:00:00Z\",\"modified\":\"2026-01-15T11:00:00Z\"}]}";
    let projects = vec![project("-project", Some(sidecar), vec![file("sess-meta", 1000, jsonl)])];

    build_index_core(&mut index, &projects).unwrap();

    let results = index.search_all().unwrap();
    assert_eq!(results.len(), 1);
    assert_eq!(results[0].session_id, "sess-meta");
    assert_eq!(results[0].project_path, "/custom/path");
    assert_eq!(results[0].git_branch, "feature-branch");
    assert_eq!(results[0].summary, "My summary");
    assert_eq!(results[0].prompts.len(), 1);
    assert_eq!(results[0].prompts[0], "Hello");
}

#[test]
fn full_index_and_search_flow() {
    let mut index = SessionIndex::open_in_memory().unwrap();
    let sess1 = "{\"type\":\"user\",\"timestamp\":\"2026-01-15T10:00:00Z\",\"message\":{\"content\":\"JWT認証を実装して\"},\"gitBranch\":\"feat/auth\"}\n{\"type\":\"assistant\",\"timestamp\":\"2026-01-15T10:01:00Z\",\"message\":{\"content\":\"承知しました\"}}\n{\"type\":\"user\",\"timestamp\":\"2026-01-15T10:02:00Z\",\"message\":{\"content\":\"テストも書いて\"}}";
    let sess2 = "{\"type\":\"user\",\"timestamp\":\"2026-01-14T10:00:00Z\",\"message\":{\"content\":\"Kamalでデプロイ設定して\"},\"gitBranch\":\"main\"}\n{\"type\":\"assistant\",\"timestamp\":\"2026-01-14T10:01:00Z\",\"message\":{\"content\":\"OK\"}}";
    let projects = vec![
        project("project-auth", None, vec![file("sess-1", 1000, sess1)]),
        project("project-deploy", None, vec![file("sess-2", 2000, sess2)]),
    ];

    build_index_core(&mut index, &projects).unwrap();

    let results = index.search_all().unwrap();
    assert_eq!(results.len(), 2);

    let auth_session = find(&results, "sess-1");
    assert_eq!(auth_session.prompts.len(), 2);
    assert!(auth_session.prompts[0].contains("JWT認証"));
    assert!(auth_session.prompts[1].contains("テスト"));

    let deploy_session = find(&results, "sess-2");
    assert_eq!(deploy_session.prompts.len(), 1);
    assert!(deploy_session.prompts[0].contains("Kamal"));
}

#[test]
fn incremental_index_update() {
    let mut index = SessionIndex::open_in_memory().unwrap();
    let sess_a = "{\"type\":\"user\",\"timestamp\":\"2026-01-15T10:00:00Z\",\"message\":{\"content\":\"Hello\"}}";
    let projects = vec![project("my-project", None, vec![file("sess-a", 1000, sess_a)])];
    build_index_core(&mut index, &projects).unwrap();
    assert_eq!(index.search_all().unwrap().len(), 1);

    // a second session appears in the tree
    let sess_b = "{\"type\":\"user\",\"timestamp\":\"2026-01-16T10:00:00Z\",\"message\":{\"content\":\"World\"}}";
    let projects = vec![project(
        "my-project",
        None,
        vec![file("sess-a", 1000, sess_a), file("sess-b", 2000, sess_b)],
    )];
    build_index_core(&mut index, &projects).unwrap();
    assert_eq!(index.search_all().unwrap().len(), 2);
}

#[test]
fn rebuilding_unchanged_tree_is_identical() {
    // two projects, three sessions; the second pass changes nothing at all
    let mut index = SessionIndex::open_in_memory().unwrap();
    let c1 = "{\"type\":\"user\",\"message\":{\"content\":\"alpha\"}}\n{\"type\":\"user\",\"message\":{\"content\":\"beta\"}}";
    let c2 = "{\"type\":\"user\",\"message\":{\"content\":\"gamma\"}}";
    let c3 = "{\"type\":\"user\",\"message\":{\"content\":\"delta\"}}";
    let projects = vec![
        project("p-one", None, vec![file("s1", 11, c1), file("s2", 12, c2)]),
        project("p-two", None, vec![file("s3", 13, c3)]),
    ];
    build_index_core(&mut index, &projects).unwrap();
    let first: Vec<(String, Vec<String>)> = index
        .search_all()
        .unwrap()
        .into_iter()
        .map(|r| (r.session_id, r.prompts))
        .collect();

    build_index_core(&mut index, &projects).unwrap();
    let second: Vec<(String, Vec<String>)> = index
        .search_all()
        .unwrap()
        .into_iter()
        .map(|r| (r.session_id, r.prompts))
        .collect();

    assert_eq!(first.len(), 3);
    assert_eq!(first, second);
}

#[test]
fn touching_one_file_updates_only_that_session() {
    let mut index = SessionIndex::open_in_memory().unwrap();
    let c1 = "{\"type\":\"user\",\"message\":{\"content\":\"old prompt\"}}";
    let c2 = "{\"type\":\"user\",\"message\":{\"content\":\"untouched prompt\"}}";
    let projects = vec![project(
        "proj",
        None,
        vec![file("sess-1", 100, c1), file("sess-2", 200, c2)],
    )];
    build_index_core(&mut index, &projects).unwrap();

    // only sess-1's file changes content and modification time
    let c1b = "{\"type\":\"user\",\"message\":{\"content\":\"brand new prompt\"}}";
    let projects = vec![project(
        "proj",
        None,
        vec![file("sess-1", 101, c1b), file("sess-2", 200, c2)],
    )];
    build_index_core(&mut index, &projects).unwrap();

    let results = index.search_all().unwrap();
    assert_eq!(results.len(), 2);
    let s1 = find(&results, "sess-1");
    assert_eq!(s1.prompts, vec!["brand new prompt"]);
    let s2 = find(&results, "sess-2");
    assert_eq!(s2.prompts, vec!["untouched prompt"]);
    assert_eq!(index.get_file_mtime("sess-1").unwrap(), Some(101));
    assert_eq!(index.get_file_mtime("sess-2").unwrap(), Some(200));
}

#[test]
fn unreadable_session_degrades_to_empty_prompts() {
    let mut index = SessionIndex::open_in_memory().unwrap();
    let projects = vec![project("proj", None, vec![file("sess-x", 5, "not json at all")])];
    build_index_core(&mut index, &projects).unwrap();
    let results = index.search_all().unwrap();
    assert_eq!(results.len(), 1);
    assert!(results[0].prompts.is_empty());
}

#[test]
fn malformed_sidecar_is_treated_as_empty() {
    let mut index = SessionIndex::open_in_memory().unwrap();
    let jsonl = "{\"type\":\"user\",\"message\":{\"content\":\"hi\"}}";
    let projects = vec![project("-a-b", Some("{broken"), vec![file("s", 1, jsonl)])];
    build_index_core(&mut index, &projects).unwrap();
    let results = index.search_all().unwrap();
    assert_eq!(results.len(), 1);
    // the heuristic decoding stands in for the missing sidecar path
    assert_eq!(results[0].project_path, "/a/b");
    assert_eq!(results[0].prompts, vec!["hi"]);
}
