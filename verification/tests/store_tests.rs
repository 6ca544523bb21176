use cc_sessions_viewer::store::{PromptRecord, SessionIndex, SessionRecord};

fn record(session_id: &str) -> SessionRecord {
    SessionRecord {
        session_id: session_id.to_string(),
        project_path: "/project".to_string(),
        dir_name: "-project".to_string(),
        git_branch: String::new(),
        summary: String::new(),
        first_prompt: String::new(),
        message_count: 0,
        created_at: String::new(),
        modified_at: String::new(),
        file_mtime: 0,
    }
}

#[test]
fn create_db_creates_tables() {
    // a fresh store answers queries against both tables
    let index = SessionIndex::open_in_memory().unwrap();
    assert!(index.search_all().unwrap().is_empty());
    assert!(index.all_session_ids().unwrap().is_empty());
}

#[test]
fn open_fails_without_parent_directory() {
    let r = SessionIndex::open("/this/parent/does/not/exist/index.db");
    assert!(r.is_err());
}

#[test]
fn upsert_session_and_prompts() {
    let mut index = SessionIndex::open_in_memory().unwrap();

    let rec = SessionRecord {
        session_id: "sess-1".to_string(),
        project_path: "/home/user/project".to_string(),
        dir_name: "-home-user-project".to_string(),
        git_branch: "main".to_string(),
        summary: "Test session".to_string(),
        first_prompt: "Hello world".to_string(),
        message_count: 5,
        created_at: "2026-01-15T10:00:00Z".to_string(),
        modified_at: "2026-01-15T11:00:00Z".to_string(),
        file_mtime: 1700000000,
    };
    index.upsert_session(&rec).unwrap();

    let prompts = vec![
        PromptRecord {
            prompt: "Hello world".to_string(),
            timestamp: Some("2026-01-15T10:00:00Z".to_string()),
        },
        PromptRecord {
            prompt: "How are you?".to_string(),
            timestamp: Some("2026-01-15T10:05:00Z".to_string()),
        },
    ];
    index.insert_prompts("sess-1", &prompts).unwrap();

    let results = index.search_all().unwrap();
    assert_eq!(results.len(), 1);
    assert_eq!(results[0].session_id, "sess-1");
    assert_eq!(results[0].project_path, "/home/user/project");
    assert_eq!(results[0].git_branch, "main");
    assert_eq!(results[0].summary, "Test session");
    assert_eq!(results[0].prompts.len(), 2);
    assert_eq!(results[0].prompts[0], "Hello world");
    assert_eq!(results[0].prompts[1], "How are you?");
}

#[test]
fn get_file_mtime_returns_none_for_unknown() {
    let index = SessionIndex::open_in_memory().unwrap();
    let result = index.get_file_mtime("nonexistent").unwrap();
    assert!(result.is_none());
}

#[test]
fn get_file_mtime_returns_stored_value() {
    let mut index = SessionIndex::open_in_memory().unwrap();
    let mut rec = record("sess-1");
    rec.file_mtime = 1700000000;
    index.upsert_session(&rec).unwrap();

    let mtime = index.get_file_mtime("sess-1").unwrap();
    assert_eq!(mtime, Some(1700000000));
}

#[test]
fn upsert_session_updates_existing() {
    let mut index = SessionIndex::open_in_memory().unwrap();

    let rec1 = SessionRecord {
        session_id: "sess-1".to_string(),
        project_path: "/project".to_string(),
        dir_name: "-project".to_string(),
        git_branch: "main".to_string(),
        summary: "Original".to_string(),
        first_prompt: "Hello".to_string(),
        message_count: 3,
        created_at: "2026-01-15T10:00:00Z".to_string(),
        modified_at: "2026-01-15T10:00:00Z".to_string(),
        file_mtime: 1700000000,
    };
    index.upsert_session(&rec1).unwrap();

    let rec2 = SessionRecord {
        session_id: "sess-1".to_string(),
        project_path: "/project".to_string(),
        dir_name: "-project".to_string(),
        git_branch: "feature".to_string(),
        summary: "Updated".to_string(),
        first_prompt: "Hello".to_string(),
        message_count: 10,
        created_at: "2026-01-15T10:00:00Z".to_string(),
        modified_at: "2026-01-15T12:00:00Z".to_string(),
        file_mtime: 1700001000,
    };
    index.upsert_session(&rec2).unwrap();

    let results = index.search_all().unwrap();
    assert_eq!(results.len(), 1);
    assert_eq!(results[0].summary, "Updated");
    assert_eq!(results[0].git_branch, "feature");

    let mtime = index.get_file_mtime("sess-1").unwrap();
    assert_eq!(mtime, Some(1700001000));
}

#[test]
fn insert_prompts_skips_timestamped_duplicates_but_keeps_null_ones() {
    let mut index = SessionIndex::open_in_memory().unwrap();
    index.upsert_session(&record("sess-1")).unwrap();

    let prompts = vec![
        PromptRecord { prompt: "same".to_string(), timestamp: Some("t1".to_string()) },
        PromptRecord { prompt: "same".to_string(), timestamp: Some("t1".to_string()) },
        PromptRecord { prompt: "same".to_string(), timestamp: None },
        PromptRecord { prompt: "same".to_string(), timestamp: None },
    ];
    index.insert_prompts("sess-1", &prompts).unwrap();

    let results = index.search_all().unwrap();
    assert_eq!(results.len(), 1);
    // the timestamped duplicate is skipped; null timestamps never conflict
    assert_eq!(results[0].prompts, vec!["same", "same", "same"]);
}

#[test]
fn search_all_orders_by_created_at_descending() {
    let mut index = SessionIndex::open_in_memory().unwrap();
    let mut a = record("a");
    a.created_at = "2026-01-01T00:00:00Z".to_string();
    let mut b = record("b");
    b.created_at = "2026-03-01T00:00:00Z".to_string();
    let mut c = record("c");
    c.created_at = "2026-02-01T00:00:00Z".to_string();
    index.upsert_session(&a).unwrap();
    index.upsert_session(&b).unwrap();
    index.upsert_session(&c).unwrap();

    let results = index.search_all().unwrap();
    let ids: Vec<&str> = results.iter().map(|r| r.session_id.as_str()).collect();
    assert_eq!(ids, vec!["b", "c", "a"]);
}
