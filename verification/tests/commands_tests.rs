use socrates_core::analysis::AnalysisMode;
use socrates_core::commands::{health_verdict, list_models, model_info_of, pause_after, plan_stream, rag_prompt};
use socrates_core::hits::{DocumentMetadata, QueryHit};
use socrates_core::ollama::{ModelDetails, ModelInfo};

fn listed(name: &str, size: u64, details: Option<ModelDetails>) -> ModelInfo {
    ModelInfo {
        name: name.to_string(),
        modified_at: String::new(),
        size,
        digest: String::new(),
        details,
    }
}

fn hit(document: &str) -> QueryHit {
    QueryHit {
        document: document.to_string(),
        metadata: DocumentMetadata {
            source: "test".to_string(),
            document_type: "note".to_string(),
            language: None,
            timestamp: String::new(),
            file_path: None,
            url: None,
            title: None,
            additional: String::new(),
        },
        matches: 1,
        keyword_count: 1,
        id: "id".to_string(),
    }
}

#[test]
fn model_info_in_megabytes() {
    let details = ModelDetails {
        parameter_size: Some("7B".to_string()),
        quantization_level: Some("Q4_0".to_string()),
        format: None,
        family: None,
        families: None,
    };
    let info = model_info_of(&listed("llama2", 3_825_819_519, Some(details)));
    assert_eq!(info.name, "llama2");
    assert_eq!(info.size_mb, 3825);
    assert_eq!(info.parameter_size.as_deref(), Some("7B"));
    assert_eq!(info.quantization.as_deref(), Some("Q4_0"));
    let bare = model_info_of(&listed("tiny", 999_999, None));
    assert_eq!(bare.size_mb, 0);
    assert!(bare.parameter_size.is_none());
    assert!(bare.quantization.is_none());
    let all = list_models(&vec![listed("a", 2_000_000, None), listed("b", 5_500_000, None)]);
    assert_eq!(all.len(), 2);
    assert_eq!(all[1].name, "b");
    assert_eq!(all[1].size_mb, 5);
}

#[test]
fn stream_plan_defaults() {
    let plan = plan_stream("hello", None, None, None, None, None);
    assert_eq!(plan.mode, AnalysisMode::Standard);
    assert!(!plan.use_rag);
    assert_eq!(plan.collection, "default");
    assert_eq!(plan.n_results, 3);
    assert_eq!(plan.max_rounds, 5);
    assert!(plan.save_to_rag);
    assert!(!plan.suggest_deep_analysis);
}

#[test]
fn stream_plan_choices() {
    let plan = plan_stream(
        "hello",
        Some(true),
        Some("docs".to_string()),
        Some("socratic"),
        Some(2),
        Some(false),
    );
    assert_eq!(plan.mode, AnalysisMode::Socratic);
    assert!(plan.use_rag);
    assert_eq!(plan.collection, "docs");
    assert_eq!(plan.max_rounds, 2);
    assert!(!plan.save_to_rag);
    assert_eq!(plan_stream("x", None, None, Some("systematic"), None, None).mode, AnalysisMode::Systematic);
    assert_eq!(plan_stream("x", None, None, Some("other"), None, None).mode, AnalysisMode::Standard);
}

#[test]
fn deep_analysis_suggested_only_in_standard_mode() {
    let complex = "Design the architecture of a distributed system, explain the trade-offs and compare the strategies to optimize performance and scalability";
    let standard = plan_stream(complex, None, None, None, None, None);
    let socratic = plan_stream(complex, None, None, Some("socratic"), None, None);
    assert_eq!(standard.suggest_deep_analysis, socrates_core::capability::should_suggest_deep_analysis(complex));
    assert!(!socratic.suggest_deep_analysis);
}

#[test]
fn rag_prompt_numbers_documents() {
    let hits = vec![hit("first doc"), hit("second doc")];
    assert_eq!(
        rag_prompt("What is Rust?", &hits),
        "Based on the following relevant information:\n\n[Document 1]\nfirst doc\n\n[Document 2]\nsecond doc\n\nUser Question: What is Rust?\n\nAnswer:"
    );
    assert_eq!(rag_prompt("What is Rust?", &vec![]), "What is Rust?");
}

#[test]
fn pauses_every_tenth_character() {
    assert!(pause_after(0));
    assert!(!pause_after(1));
    assert!(!pause_after(9));
    assert!(pause_after(10));
    assert!(pause_after(20));
}

#[test]
fn health_verdicts() {
    assert_eq!(health_verdict(true), Ok(true));
    assert_eq!(health_verdict(false), Err("Ollama service is unhealthy".to_string()));
}
