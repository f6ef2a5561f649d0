use socrates_core::code_analysis::Position;
use socrates_core::docstore::{get_documents_from_chroma, ChromaManager};
use socrates_core::editor::get_word_at_position;
use socrates_core::hits::DocumentMetadata;
use socrates_core::query_cache::CacheConfig;

fn metadata(additional: &str) -> DocumentMetadata {
    DocumentMetadata {
        source: "test".to_string(),
        document_type: "test".to_string(),
        language: None,
        timestamp: "2024-01-01T00:00:00Z".to_string(),
        file_path: None,
        url: None,
        title: None,
        additional: additional.to_string(),
    }
}

fn create_test_manager() -> ChromaManager {
    ChromaManager::new("./test_chroma_db").expect("Failed to create test ChromaManager")
}

fn fresh_name(prefix: &str) -> String {
    prefix.to_string() + &uuid::Uuid::new_v4().to_string()
}

#[test]
fn test_chroma_manager_creation() {
    let _manager = create_test_manager();
}

#[test]
fn test_collection_management() {
    let mut manager = create_test_manager();
    let collection_name = fresh_name("test_collection_");
    manager.get_or_create_collection(&collection_name);
    let collections = manager.list_collections().expect("Failed to list collections");
    assert!(collections.iter().any(|c| *c == collection_name));
    manager.delete_collection(&collection_name);
    let collections = manager.list_collections().expect("Failed to list collections");
    assert!(!collections.iter().any(|c| *c == collection_name));
}

#[test]
fn test_document_operations() {
    let mut manager = create_test_manager();
    let collection_name = fresh_name("test_docs_");
    manager.get_or_create_collection(&collection_name);
    manager
        .add_documents(
            &collection_name,
            vec!["This is test document 1".to_string(), "This is test document 2".to_string()],
            vec![metadata("{\"type\":\"test\"}"), metadata("{\"type\":\"test\"}")],
            Some(vec!["doc1".to_string(), "doc2".to_string()]),
        )
        .expect("Failed to add documents");
    let retrieved_docs =
        get_documents_from_chroma(&mut manager, &collection_name, None, Some(10)).expect("Failed to get documents");
    assert_eq!(retrieved_docs.len(), 2);
    manager.delete(&collection_name, vec!["doc1".to_string()]).expect("Failed to delete document");
    let remaining_docs =
        get_documents_from_chroma(&mut manager, &collection_name, None, Some(10)).expect("Failed to get documents");
    assert_eq!(remaining_docs.len(), 1);
    assert_eq!(remaining_docs[0].id, "doc2");
    manager.delete_collection(&collection_name);
}

#[test]
fn test_query_operations() {
    let mut manager = create_test_manager();
    let collection_name = fresh_name("test_query_");
    manager.get_or_create_collection(&collection_name);
    manager
        .add_documents(
            &collection_name,
            vec![
                "Rust programming language".to_string(),
                "Python data science".to_string(),
                "TypeScript web development".to_string(),
            ],
            vec![
                metadata("{\"category\":\"programming\"}"),
                metadata("{\"category\":\"programming\"}"),
                metadata("{\"category\":\"web\"}"),
            ],
            Some(vec!["doc1".to_string(), "doc2".to_string(), "doc3".to_string()]),
        )
        .expect("Failed to add documents");
    let results = manager
        .query(&collection_name, "programming language", 2, None, 1_000)
        .expect("Failed to query documents");
    assert!(!results.is_empty());
    assert!(results.len() <= 2);
    assert_eq!(results[0].id, "doc1");
    manager.delete_collection(&collection_name);
}

#[test]
fn test_cache_operations() {
    let cache_config = CacheConfig {
        enabled: true,
        default_ttl_seconds: 300,
        max_entries: 1000,
        cleanup_interval_seconds: 600,
    };
    let mut manager =
        ChromaManager::new_with_cache_config("./test_cache_db", cache_config).expect("Failed to create manager with cache");
    let collection_name = fresh_name("test_cache_");
    manager.get_or_create_collection(&collection_name);
    manager
        .add_documents(
            &collection_name,
            vec!["Cacheable content".to_string()],
            vec![metadata("{}")],
            Some(vec!["cache_doc1".to_string()]),
        )
        .expect("Failed to add documents");
    let _result1 = manager.query(&collection_name, "cacheable", 5, None, 1_000).expect("Failed to query");
    let stats1 = manager.get_cache_stats(1_000);
    assert_eq!(stats1.total_misses, 1);
    let _result2 = manager.query(&collection_name, "cacheable", 5, None, 2_000).expect("Failed to query");
    let stats2 = manager.get_cache_stats(2_000);
    assert_eq!(stats2.total_hits, 1);
    manager.clear_cache();
    let stats3 = manager.get_cache_stats(3_000);
    assert_eq!(stats3.total_hits + stats3.total_misses, 0);
    manager.delete_collection(&collection_name);
}

#[test]
fn test_concurrent_operations() {
    let mut manager = create_test_manager();
    let collection_name = fresh_name("test_concurrent_");
    manager.get_or_create_collection(&collection_name);
    for i in 0..10 {
        manager
            .add_documents(
                &collection_name,
                vec![format!("Document number {}", i)],
                vec![metadata(&format!("{{\"index\":{}}}", i))],
                Some(vec![format!("doc_{}", i)]),
            )
            .expect("Failed to add document");
    }
    let docs = get_documents_from_chroma(&mut manager, &collection_name, None, Some(20)).expect("Failed to get documents");
    assert_eq!(docs.len(), 10);
    manager.delete_collection(&collection_name);
}

#[test]
fn test_get_word_at_position() {
    let document = "function test() {\n    console.log('hello');\n}";
    let word = get_word_at_position(document, Position { line: 0, character: 3 });
    assert_eq!(word, Some("function".to_string()));
    let word = get_word_at_position(document, Position { line: 0, character: 12 });
    assert_eq!(word, Some("test".to_string()));
    let word = get_word_at_position(document, Position { line: 1, character: 6 });
    assert_eq!(word, Some("console".to_string()));
}

#[test]
fn a_write_drops_the_collections_cached_queries() {
    let mut manager = create_test_manager();
    let name = fresh_name("stale_");
    manager
        .add_documents(&name, vec!["rust ownership".to_string()], vec![metadata("{}")], Some(vec!["a".to_string()]))
        .unwrap();
    let first = manager.query(&name, "rust", 10, None, 1_000).unwrap();
    assert_eq!(first.len(), 1);
    manager
        .add_documents(&name, vec!["rust borrowing".to_string()], vec![metadata("{}")], Some(vec!["b".to_string()]))
        .unwrap();
    let second = manager.query(&name, "rust", 10, None, 2_000).unwrap();
    assert_eq!(second.len(), 2);
    manager.delete(&name, vec!["a".to_string()]).unwrap();
    let third = manager.query(&name, "rust", 10, None, 3_000).unwrap();
    assert_eq!(third.len(), 1);
    assert_eq!(third[0].id, "b");
}
