use socrates_core::history::{is_before, ChatContext, CodeSnippet, HistoryManager, Stamp};

fn at(secs: i64) -> Stamp {
    Stamp { secs, nanos: 0 }
}

#[test]
fn stamps_are_ordered() {
    assert!(is_before(at(1), at(2)));
    assert!(is_before(Stamp { secs: 1, nanos: 5 }, Stamp { secs: 1, nanos: 6 }));
    assert!(!is_before(at(2), at(2)));
    assert!(!is_before(at(3), at(2)));
}

#[test]
fn sessions_are_created_and_found() {
    let mut h = HistoryManager::new();
    let s = h.create_session("First chat", "llama2", at(10));
    assert!(s.id.starts_with("session_"));
    assert_eq!(s.title, "First chat");
    assert_eq!(s.model, "llama2");
    assert!(s.messages.is_empty());
    assert!(s.tags.is_empty());
    assert_eq!(s.created_at, at(10));
    let found = h.get_session(&s.id).unwrap();
    assert_eq!(found.title, "First chat");
    assert!(h.get_session("session_missing").is_none());
    assert!(h.delete_session(&s.id));
    assert!(!h.delete_session(&s.id));
    assert!(h.list_sessions().is_empty());
}

#[test]
fn messages_are_appended() {
    let mut h = HistoryManager::new();
    let s = h.create_session("t", "m", at(1));
    let after = h.add_message(&s.id, "user", "Hello", at(5)).unwrap();
    assert_eq!(after.messages.len(), 1);
    assert_eq!(after.messages[0].role, "user");
    assert_eq!(after.messages[0].content, "Hello");
    assert_eq!(after.messages[0].timestamp, at(5));
    assert_eq!(after.updated_at, at(5));
    assert_eq!(after.created_at, at(1));
    let after = h.add_message(&s.id, "assistant", "Hi!", at(6)).unwrap();
    assert_eq!(after.messages.len(), 2);
    assert_eq!(h.add_message("nope", "user", "x", at(7)).unwrap_err(), "Session not found: nope");
}

#[test]
fn tags_are_added_once_and_removed_everywhere() {
    let mut h = HistoryManager::new();
    let s = h.create_session("t", "m", at(1));
    h.add_tag(&s.id, "rust", at(2)).unwrap();
    let again = h.add_tag(&s.id, "rust", at(3)).unwrap();
    assert_eq!(again.tags, vec!["rust"]);
    assert_eq!(again.updated_at, at(2));
    h.add_tag(&s.id, "async", at(4)).unwrap();
    let removed = h.remove_tag(&s.id, "rust", at(5)).unwrap();
    assert_eq!(removed.tags, vec!["async"]);
    assert_eq!(removed.updated_at, at(5));
    assert_eq!(h.add_tag("nope", "x", at(6)).unwrap_err(), "Session not found: nope");
    assert_eq!(h.remove_tag("nope", "x", at(6)).unwrap_err(), "Session not found: nope");
    assert_eq!(h.filter_sessions_by_tag("async").len(), 1);
    assert!(h.filter_sessions_by_tag("rust").is_empty());
}

#[test]
fn listing_is_most_recent_first() {
    let mut h = HistoryManager::new();
    let a = h.create_session("a", "m", at(1));
    let b = h.create_session("b", "m", at(2));
    let c = h.create_session("c", "m", at(3));
    h.add_message(&a.id, "user", "later", at(10)).unwrap();
    let titles: Vec<String> = h.list_sessions().into_iter().map(|s| s.title).collect();
    assert_eq!(titles, vec!["a", "c", "b"]);
    let _ = (b, c);
}

#[test]
fn search_by_title_tag_or_message() {
    let mut h = HistoryManager::new();
    let a = h.create_session("Rust lifetimes", "m", at(1));
    let b = h.create_session("Other", "m", at(2));
    let c = h.create_session("Third", "m", at(3));
    h.add_tag(&b.id, "RUST-async", at(4)).unwrap();
    h.add_message(&c.id, "user", "nothing here", at(5)).unwrap();
    let found: Vec<String> = h.search_sessions("rust").into_iter().map(|s| s.id).collect();
    assert_eq!(found.len(), 2);
    assert!(found.contains(&a.id));
    assert!(found.contains(&b.id));
    assert!(h.search_sessions("python").is_empty());
    assert_eq!(h.search_sessions("NOTHING").len(), 1);
}

#[test]
fn context_and_updates() {
    let mut h = HistoryManager::new();
    let s = h.create_session("t", "m", at(1));
    let ctx = ChatContext {
        code_snippets: vec![CodeSnippet {
            code: "fn main() {}".to_string(),
            language: "rust".to_string(),
            file_path: None,
            start_line: Some(1),
            end_line: Some(1),
        }],
        file_paths: vec!["src/main.rs".to_string()],
        repository_path: None,
        additional_context: vec![],
    };
    let updated = h.update_context(&s.id, ctx, at(9)).unwrap();
    assert_eq!(updated.context.as_ref().unwrap().file_paths, vec!["src/main.rs"]);
    assert_eq!(updated.updated_at, at(9));
    let mut edited = h.get_session(&s.id).unwrap();
    edited.title = "renamed".to_string();
    h.update_session(edited, at(20));
    let now = h.get_session(&s.id).unwrap();
    assert_eq!(now.title, "renamed");
    assert_eq!(now.updated_at, at(20));
}
