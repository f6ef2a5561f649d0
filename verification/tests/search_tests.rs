use socrates_core::health::{SearXNGHealthConfig, SearchPlan};
use socrates_core::search::{
    degraded_result, fallback_answer, first_result, get_available_categories, hit_from_raw, search_results,
    RawSearchHit, SearXNGClient, SearchResult,
};
use socrates_core::scraper::documentation_search_request;

fn raw(title: Option<&str>, url: Option<&str>, content: Option<&str>, snippet: Option<&str>, engine: Option<&str>) -> RawSearchHit {
    RawSearchHit {
        title: title.map(String::from),
        url: url.map(String::from),
        content: content.map(String::from),
        snippet: snippet.map(String::from),
        engine: engine.map(String::from),
    }
}

fn hit(title: &str, url: &str) -> SearchResult {
    SearchResult {
        title: title.to_string(),
        url: url.to_string(),
        content: String::new(),
        engine: "google".to_string(),
    }
}

#[test]
fn new_client_uses_local_service_and_default_engines() {
    let client = SearXNGClient::new(None);
    assert_eq!(client.get_base_url(), "http://localhost:8080");
    assert_eq!(
        client.get_default_engines(),
        vec!["github", "stackoverflow", "google", "duckduckgo"]
    );
    assert_eq!(client.health_monitor.config.max_retry_attempts, 2);
    assert!(!client.health_monitor.stats.is_healthy);
}

#[test]
fn client_with_given_address_and_health_config() {
    let mut cfg = SearXNGHealthConfig::default();
    cfg.graceful_degradation = false;
    let mut client = SearXNGClient::new_with_health_config(Some("http://search:9000".to_string()), cfg);
    assert_eq!(client.get_base_url(), "http://search:9000");
    assert!(!client.health_monitor.config.graceful_degradation);
    client.set_base_url("http://other".to_string());
    assert_eq!(client.get_base_url(), "http://other");
    client.set_default_engines(vec!["bing".to_string()]);
    assert_eq!(client.get_default_engines(), vec!["bing"]);
    assert_eq!(client.health_url(), "http://other/healthz");
}

#[test]
fn search_request_with_defaults() {
    let client = SearXNGClient::new(None);
    let req = client.search_request("rust", None, None, None);
    assert_eq!(req.url, "http://localhost:8080/search");
    let params: Vec<(&str, &str)> = req.params.iter().map(|(k, v)| (k.as_str(), v.as_str())).collect();
    assert_eq!(
        params,
        vec![
            ("q", "rust"),
            ("format", "json"),
            ("engines", "github,stackoverflow,google,duckduckgo"),
            ("categories", "general,it"),
        ]
    );
}

#[test]
fn search_request_with_choices_and_limit() {
    let client = SearXNGClient::new(Some("http://s".to_string()));
    let req = client.search_request(
        "async await",
        Some(vec!["google".to_string()]),
        Some(vec!["it".to_string(), "science".to_string()]),
        Some(25),
    );
    let params: Vec<(&str, &str)> = req.params.iter().map(|(k, v)| (k.as_str(), v.as_str())).collect();
    assert_eq!(
        params,
        vec![
            ("q", "async await"),
            ("format", "json"),
            ("engines", "google"),
            ("categories", "it,science"),
            ("limit", "25"),
        ]
    );
}

#[test]
fn raw_hits_are_read_with_defaults() {
    let full = hit_from_raw(&raw(
        Some("Rust Programming Language"),
        Some("https://www.rust-lang.org/"),
        Some("A language empowering everyone"),
        None,
        Some("google"),
    ));
    assert_eq!(full.title, "Rust Programming Language");
    assert_eq!(full.url, "https://www.rust-lang.org/");
    assert_eq!(full.content, "A language empowering everyone");
    assert_eq!(full.engine, "google");

    let bare = hit_from_raw(&raw(None, None, None, None, None));
    assert_eq!(bare.title, "Untitled");
    assert_eq!(bare.url, "");
    assert_eq!(bare.content, "");
    assert_eq!(bare.engine, "unknown");

    let snippet = hit_from_raw(&raw(None, None, None, Some("from the snippet"), None));
    assert_eq!(snippet.content, "from the snippet");
}

#[test]
fn search_results_keep_order_and_count() {
    let raws = vec![raw(Some("a"), None, None, None, None), raw(Some("b"), None, None, None, None)];
    let results = search_results(&raws, None);
    assert_eq!(results.len(), 2);
    assert_eq!(results[0].title, "a");
    assert_eq!(results[1].title, "b");
    assert!(search_results(&vec![], None).is_empty());
}

#[test]
fn first_result_or_not_found() {
    let results = vec![hit("one", "u1"), hit("two", "u2")];
    assert_eq!(first_result(&results).unwrap().title, "one");
    assert_eq!(first_result(&vec![]).unwrap_err(), "No search results found");
}

#[test]
fn fallback_answers_by_plan() {
    let results = vec![hit("one", "u1")];
    let err = fallback_answer(SearchPlan::Unavailable { error: "down".to_string() }, &results);
    assert_eq!(err.unwrap_err(), "down");
    let degraded = fallback_answer(SearchPlan::Degraded { content: "notice".to_string() }, &results).unwrap();
    assert_eq!(degraded.title, "Search Service Degraded");
    assert_eq!(degraded.url, "");
    assert_eq!(degraded.content, "notice");
    assert_eq!(degraded.engine, "fallback");
    assert_eq!(fallback_answer(SearchPlan::Search, &results).unwrap().url, "u1");
    assert_eq!(fallback_answer(SearchPlan::Search, &vec![]).unwrap_err(), "No search results found");
    assert_eq!(degraded_result("x".to_string()).content, "x");
}

#[test]
fn search_plan_follows_health() {
    let mut client = SearXNGClient::new(None);
    match client.health_monitor.search_plan() {
        SearchPlan::Unavailable { error } => assert_eq!(error, "SearXNG service is currently unavailable"),
        other => panic!("unexpected plan {:?}", other),
    }
    client.health_monitor.record_check(true, 10, 100, None);
    assert!(matches!(client.health_monitor.search_plan(), SearchPlan::Search));
    client.health_monitor.record_check(false, 10, 101, Some("refused"));
    match client.health_monitor.search_plan() {
        SearchPlan::Degraded { content } => assert_eq!(
            content,
            "Search functionality is currently limited due to service issues: Intermittent connectivity issues. Please try again later."
        ),
        other => panic!("unexpected plan {:?}", other),
    }
    assert_eq!(client.get_health_stats().consecutive_failures, 1);
}

#[test]
fn categories_offered() {
    assert_eq!(
        get_available_categories(),
        vec!["general", "it", "science", "news", "images", "videos", "music", "files", "social media"]
    );
}

#[test]
fn documentation_search_asks_documentation_engines() {
    let client = SearXNGClient::new(None);
    let req = documentation_search_request(&client, "serde", 5);
    let params: Vec<(&str, &str)> = req.params.iter().map(|(k, v)| (k.as_str(), v.as_str())).collect();
    assert_eq!(
        params,
        vec![
            ("q", "serde"),
            ("format", "json"),
            ("engines", "documentation,github,stackoverflow"),
            ("categories", "it,programming"),
            ("limit", "5"),
        ]
    );
}

#[test]
fn search_results_respect_the_limit() {
    let raws: Vec<_> = (0..7).map(|_| raw(Some("t"), Some("http://x"), None, None, None)).collect();
    assert_eq!(search_results(&raws, Some(5)).len(), 5);
    assert_eq!(search_results(&raws, Some(10)).len(), 7);
    assert_eq!(search_results(&raws, Some(0)).len(), 0);
}
