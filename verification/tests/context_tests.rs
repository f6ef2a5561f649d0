use socrates_core::context::{order_by_relevance, ContextManager, ContextPlan, SuggestionStep};

fn create_test_manager() -> ContextManager {
    ContextManager::new(10000, 1000)
}

#[test]
fn context_manager_creation() {
    let manager = ContextManager::new(50000, 5000);
    assert_eq!(manager.max_tokens, 50000);
    assert_eq!(manager.reserved_tokens, 5000);
    assert_eq!(manager.get_pinned_files().len(), 0);
    let default = ContextManager::default();
    assert_eq!(default.max_tokens, 128_000);
    assert_eq!(default.reserved_tokens, 25_600);
}

#[test]
fn pinning_files() {
    let mut manager = create_test_manager();
    let file_path = "/test/file.rs".to_string();
    assert!(!manager.is_file_pinned(&file_path));
    assert!(manager.pin_file(file_path.clone()).is_ok());
    assert!(manager.is_file_pinned(&file_path));
    assert!(manager.pin_file(file_path.clone()).is_ok());
    assert_eq!(manager.get_pinned_files(), vec![file_path.clone()]);
    assert!(manager.unpin_file(file_path.clone()).is_ok());
    assert!(!manager.is_file_pinned(&file_path));
    assert!(manager.unpin_file("/test/nonexistent.rs".to_string()).is_ok());
}

#[test]
fn unpinning_keeps_the_others_in_order() {
    let mut manager = create_test_manager();
    for f in ["/test/file1.rs", "/test/file2.py", "/test/file3.js"] {
        manager.pin_file(f.to_string()).unwrap();
    }
    manager.unpin_file("/test/file2.py".to_string()).unwrap();
    assert_eq!(manager.get_pinned_files(), vec!["/test/file1.rs", "/test/file3.js"]);
}

#[test]
fn budget_splits_the_window() {
    let manager = create_test_manager();
    let budget = manager.calculate_budget(2000, 1000);
    assert_eq!(budget.total, 10000);
    assert_eq!(budget.breakdown.conversation, 2000);
    assert_eq!(budget.breakdown.rag_documents, 1000);
    assert_eq!(budget.breakdown.reserved, 1000);
    assert_eq!(budget.used, 4000);
    assert_eq!(budget.available, 6000);
    assert_eq!(budget.breakdown.suggested_files, 1250);
}

#[test]
fn budget_edge_cases() {
    let manager = create_test_manager();
    let zero = manager.calculate_budget(0, 0);
    assert_eq!(zero.used, 1000);
    assert_eq!(zero.available, 9000);
    let overflow = manager.calculate_budget(15000, 5000);
    assert_eq!(overflow.total, 10000);
    assert_eq!(overflow.used, 21000);
    assert_eq!(overflow.available, 0);
    assert_eq!(overflow.breakdown.suggested_files, 0);
}

#[test]
fn budget_counts_known_pinned_files() {
    let mut manager = create_test_manager();
    manager.pin_file("/a.rs".to_string()).unwrap();
    manager.pin_file("/b.rs".to_string()).unwrap();
    manager.record_file_tokens("/a.rs", 120);
    let budget = manager.calculate_budget(1000, 500);
    assert_eq!(budget.breakdown.pinned_files, 120);
    manager.record_file_tokens("/b.rs", 80);
    let budget = manager.calculate_budget(1000, 500);
    assert_eq!(budget.breakdown.pinned_files, 200);
    assert_eq!(budget.used, 1000 + 500 + 200 + 1000);
    assert_eq!(manager.cached_tokens("/a.rs"), Some(120));
    manager.clear_cache();
    assert_eq!(manager.cached_tokens("/a.rs"), None);
    assert_eq!(manager.calculate_budget(1000, 500).breakdown.pinned_files, 0);
}

#[test]
fn file_type_detection() {
    let manager = create_test_manager();
    let cases = vec![
        ("/path/to/file.rs", "rs"),
        ("/path/to/file.py", "py"),
        ("/path/to/file.JS", "js"),
        ("/path/to/file", "unknown"),
        ("/path/to/.hidden", "unknown"),
    ];
    for (path, expected) in cases {
        assert_eq!(manager.get_file_type(path), expected, "file type of {}", path);
    }
}

#[test]
fn context_plan_takes_what_fits() {
    let manager = ContextManager::new(8000, 1000);
    let budget = manager.calculate_budget(0, 0);
    assert_eq!(budget.breakdown.suggested_files, 1000);
    let mut plan = ContextPlan::new(&budget);
    plan.add_pinned("/pinned.rs", 300);
    let pinned = vec!["/pinned.rs".to_string()];
    assert_eq!(plan.next_step("/pinned.rs", &pinned), SuggestionStep::Skip);
    assert_eq!(plan.next_step("/other.rs", &pinned), SuggestionStep::Count);
    assert!(plan.offer("/big.rs", 1500) == false);
    assert!(plan.offer("/small.rs", 600));
    assert!(plan.offer("/exact.rs", 400));
    assert_eq!(plan.remaining, 0);
    assert_eq!(plan.next_step("/more.rs", &pinned), SuggestionStep::Stop);
    assert_eq!(plan.files.len(), 3);
    assert!(plan.files[0].is_pinned);
    assert!(!plan.files[1].is_pinned);
    assert_eq!(plan.files[1].file_type, "rs");
    assert_eq!(plan.total_tokens(50, 25), 300 + 600 + 400 + 50 + 25);
}

#[test]
fn tiny_window_takes_no_large_file() {
    let small = ContextManager::new(100, 50);
    let budget = small.calculate_budget(1, 0);
    let mut plan = ContextPlan::new(&budget);
    assert!(!plan.offer("/large.txt", 1300));
    assert_eq!(plan.files.len(), 0);
}

#[test]
fn relevance_is_fixed_by_the_path() {
    let m = ContextManager::new(1000, 100);
    let a = m.calculate_file_relevance("src/main.rs", "anything");
    assert!((60..=95).contains(&a));
    assert_eq!(a, m.calculate_file_relevance("src/main.rs", "something else"));
    let b = m.calculate_file_relevance("README.md", "");
    assert!((60..=95).contains(&b));
}

#[test]
fn unpinning_undoes_pinning() {
    let mut m = ContextManager::new(1000, 100);
    m.pin_file("a.rs".to_string()).unwrap();
    m.pin_file("b.rs".to_string()).unwrap();
    let before = m.get_pinned_files();
    m.pin_file("c.rs".to_string()).unwrap();
    assert_eq!(m.get_pinned_files().len(), 3);
    m.unpin_file("c.rs".to_string()).unwrap();
    assert_eq!(m.get_pinned_files(), before);
}

#[test]
fn files_are_listed_most_relevant_first() {
    assert_eq!(order_by_relevance(&vec![70, 90, 70, 95, 60]), vec![3, 1, 0, 2, 4]);
    assert!(order_by_relevance(&vec![]).is_empty());
}
