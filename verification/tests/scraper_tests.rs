use socrates_core::docstore::{get_documents_from_chroma, ChromaManager};
use socrates_core::file_watch::{change_event, file_info, ChangeKind};
use socrates_core::scraper::{
    batch_from_results, extract_content, scrape_documentation, search_documentation, BatchScrapingRequest,
    BatchScrapingResult, DocumentationSearchRequest, ScrapingRequest, ScrapingResult,
};
use socrates_core::search::SearchResult;

const PAGE: &str = "<html><head><title> Doc Page </title><style>p{color:red}</style></head><body><script>var x = \"<b>\";</script><p>Hello &amp; welcome</p>\n\n<b>bye</b></body></html>";

#[test]
fn page_title_and_text() {
    let (title, content) = extract_content(PAGE);
    assert_eq!(title, "Doc Page");
    assert_eq!(content, "Doc Page Hello & welcome bye");
}

#[test]
fn page_without_title_or_closing_markers() {
    let (title, content) = extract_content("<p>plain</p>");
    assert_eq!(title, "Untitled Document");
    assert_eq!(content, "plain");
    let (title, _) = extract_content("<title>never closed");
    assert_eq!(title, "Untitled Document");
    let (_, content) = extract_content("keep <script>no end");
    assert_eq!(content, "keep no end");
}

#[test]
fn every_script_block_is_removed() {
    let (_, content) = extract_content("a<script>1</script>b<script>2</script>c");
    assert_eq!(content, "abc");
}

fn request(collection: &str) -> ScrapingRequest {
    ScrapingRequest {
        url: "https://docs.example/page".to_string(),
        collection_name: collection.to_string(),
        document_type: "guide".to_string(),
        max_depth: None,
        max_pages: None,
    }
}

#[test]
fn scraped_page_is_stored() {
    let mut chroma = ChromaManager::new("./unused").unwrap();
    let result = scrape_documentation(&mut chroma, &request("web_docs"), PAGE, "2024-05-01T00:00:00Z").unwrap();
    assert!(result.success);
    assert!(result.error.is_none());
    assert_eq!(result.url, "https://docs.example/page");
    assert_eq!(result.title, "Doc Page");
    assert!(result.document_id.starts_with("doc_"));
    let docs = get_documents_from_chroma(&mut chroma, "web_docs", None, None).unwrap();
    assert_eq!(docs.len(), 1);
    assert_eq!(docs[0].id, result.document_id);
    assert_eq!(docs[0].document, "Doc Page Hello & welcome bye");
    assert_eq!(docs[0].metadata.source, "web");
    assert_eq!(docs[0].metadata.document_type, "guide");
    assert_eq!(docs[0].metadata.url.as_deref(), Some("https://docs.example/page"));
    assert_eq!(docs[0].metadata.title.as_deref(), Some("Doc Page"));
    assert_eq!(docs[0].metadata.timestamp, "2024-05-01T00:00:00Z");
}

#[test]
fn batch_tally() {
    let batch = BatchScrapingRequest {
        urls: vec!["https://a".to_string(), "https://b".to_string()],
        collection_name: "c".to_string(),
        document_type: "t".to_string(),
        max_depth: Some(2),
        max_pages: None,
    };
    let second = ScrapingRequest::for_batch_page(&batch, 1);
    assert_eq!(second.url, "https://b");
    assert_eq!(second.max_depth, Some(2));
    let mut tally = BatchScrapingResult::new();
    tally.record(
        "https://a",
        Ok(ScrapingResult {
            url: "https://a".to_string(),
            title: "A".to_string(),
            content: "text".to_string(),
            document_id: "doc_1".to_string(),
            success: true,
            error: None,
        }),
    );
    tally.record("https://b", Err("Failed to fetch URL: 404 Not Found".to_string()));
    assert_eq!(tally.success_count, 1);
    assert_eq!(tally.failure_count, 1);
    assert_eq!(tally.results.len(), 2);
    assert_eq!(tally.results[1].url, "https://b");
    assert!(!tally.results[1].success);
    assert_eq!(tally.results[1].title, "");
    assert_eq!(tally.results[1].error.as_deref(), Some("Failed to fetch URL: 404 Not Found"));
}

#[test]
fn batch_from_found_pages() {
    let found = vec![
        SearchResult { title: "a".into(), url: "https://a".into(), content: String::new(), engine: "e".into() },
        SearchResult { title: "b".into(), url: "https://b".into(), content: String::new(), engine: "e".into() },
    ];
    let batch = batch_from_results(&found, "docs", "reference", 7);
    assert_eq!(batch.urls, vec!["https://a", "https://b"]);
    assert_eq!(batch.collection_name, "docs");
    assert_eq!(batch.document_type, "reference");
    assert_eq!(batch.max_depth, Some(1));
    assert_eq!(batch.max_pages, Some(7));
}

#[test]
fn stored_documentation_is_searched() {
    let mut chroma = ChromaManager::new("./unused").unwrap();
    scrape_documentation(&mut chroma, &request("docs"), "<title>Ownership</title>Rust ownership rules", "t").unwrap();
    let search = DocumentationSearchRequest {
        query: "ownership".to_string(),
        collection_name: "docs".to_string(),
        n_results: 3,
        filter: Some(vec![("language".to_string(), "rust".to_string())]),
    };
    let found = search_documentation(&mut chroma, &search, 1_000).unwrap();
    assert_eq!(found.len(), 1);
    assert_eq!(found[0].document, "Ownership Rust ownership rules");
    let again = search_documentation(&mut chroma, &search, 2_000).unwrap();
    assert_eq!(again.len(), 1);
    let none = DocumentationSearchRequest { query: "borrowing".to_string(), filter: None, ..search };
    assert!(search_documentation(&mut chroma, &none, 3_000).unwrap().is_empty());
}

#[test]
fn change_reports_and_file_listing() {
    let e = change_event("/repo/a.rs".to_string(), ChangeKind::Modify, "now".to_string());
    assert_eq!(e.event_type, "modified");
    assert_eq!(change_event("p".into(), ChangeKind::Create, "t".into()).event_type, "created");
    assert_eq!(change_event("p".into(), ChangeKind::Remove, "t".into()).event_type, "removed");
    assert_eq!(change_event("p".into(), ChangeKind::Other, "t".into()).event_type, "other");
    let f = file_info("/repo/a.rs".into(), "a.rs".into(), false, 42, None);
    assert_eq!(f.modified, "unknown");
    assert_eq!(f.size, 42);
    let g = file_info("/repo".into(), "repo".into(), true, 0, Some("2024".into()));
    assert_eq!(g.modified, "2024");
    assert!(g.is_directory);
}
