use socrates_core::capability::{
    classify_prompt_capability, estimate_speed, ollama_context_length, ollama_model_capabilities, openai_context_length,
    openai_model_capabilities, should_suggest_deep_analysis, ModelCapability,
};
use socrates_core::keyed::StrMap;
use socrates_core::ollama::{find_model, is_done, ModelInfo, OllamaClient};
use socrates_core::select::choose_oldest;
use socrates_core::text::{decimal, join_texts, split_lines, split_words, trim_chars, word_count};

fn model(name: &str, size: u64) -> ModelInfo {
    ModelInfo { name: name.to_string(), modified_at: "2024-01-01".to_string(), size, digest: "d".to_string(), details: None }
}

#[test]
fn prompts_are_routed_by_keywords_in_order() {
    assert_eq!(classify_prompt_capability("Write a function that sorts"), ModelCapability::CodeGeneration);
    assert_eq!(classify_prompt_capability("There is a BUG here"), ModelCapability::Debugging);
    assert_eq!(classify_prompt_capability("What does this do?"), ModelCapability::CodeExplanation);
    assert_eq!(classify_prompt_capability("add a README"), ModelCapability::Documentation);
    assert_eq!(classify_prompt_capability("please optimize"), ModelCapability::Refactoring);
    assert_eq!(classify_prompt_capability("unit test this"), ModelCapability::Testing);
    assert_eq!(classify_prompt_capability("which design pattern"), ModelCapability::Architecture);
    assert_eq!(classify_prompt_capability("hello"), ModelCapability::GeneralChat);
    assert_eq!(classify_prompt_capability("write code to fix the error"), ModelCapability::CodeGeneration);
}

#[test]
fn deep_analysis_needs_two_signals_or_length() {
    assert!(!should_suggest_deep_analysis("hello"));
    assert!(!should_suggest_deep_analysis("why is the sky blue"));
    assert!(should_suggest_deep_analysis("why is this broken"));
    assert!(should_suggest_deep_analysis("Debug the PERFORMANCE problem"));
    assert!(should_suggest_deep_analysis(&"a".repeat(201)));
    assert!(!should_suggest_deep_analysis(&"a".repeat(200)));
}

#[test]
fn local_model_capabilities_by_name() {
    assert_eq!(ollama_model_capabilities("CodeLlama:7b").len(), 6);
    assert_eq!(ollama_model_capabilities("llama3:8b")[2], ModelCapability::GeneralChat);
    assert_eq!(
        ollama_model_capabilities("phi3"),
        vec![ModelCapability::GeneralChat, ModelCapability::CodeExplanation, ModelCapability::Analysis]
    );
    assert_eq!(
        ollama_model_capabilities("wizardlm"),
        vec![ModelCapability::CodeGeneration, ModelCapability::Debugging, ModelCapability::Refactoring]
    );
    assert_eq!(
        ollama_model_capabilities("gemma"),
        vec![ModelCapability::GeneralChat, ModelCapability::CodeExplanation]
    );
}

#[test]
fn local_context_lengths() {
    assert_eq!(ollama_context_length("mistral-32k"), 32768);
    assert_eq!(ollama_context_length("llama2:13b"), 4096);
    assert_eq!(ollama_context_length("Llama3:8b"), 8192);
    assert_eq!(ollama_context_length("codellama:7b"), 16384);
    assert_eq!(ollama_context_length("qwen2"), 32768);
    assert_eq!(ollama_context_length("phi"), 2048);
    assert_eq!(ollama_context_length("unknown"), 4096);
}

#[test]
fn openai_models() {
    assert_eq!(openai_model_capabilities("gpt-4o").len(), 9);
    assert_eq!(openai_model_capabilities("gpt-3.5-turbo").len(), 5);
    assert_eq!(openai_model_capabilities("davinci-code").len(), 4);
    assert_eq!(openai_model_capabilities("whisper"), vec![ModelCapability::GeneralChat]);
    assert_eq!(openai_context_length("gpt-4-turbo-preview"), 128000);
    assert_eq!(openai_context_length("gpt-4"), 8192);
    assert_eq!(openai_context_length("gpt-4-32k"), 32768);
    assert_eq!(openai_context_length("gpt-3.5-turbo-0125"), 16385);
    assert_eq!(openai_context_length("gpt-4o"), 4096);
}

#[test]
fn model_server_client_state() {
    let c = OllamaClient::new(None);
    assert_eq!(c.get_base_url(), "http://localhost:11434");
    assert_eq!(c.endpoint("/api/tags"), "http://localhost:11434/api/tags");
    let mut c = OllamaClient::new(Some("http://box:1".to_string()));
    assert_eq!(c.endpoint("/api/chat"), "http://box:1/api/chat");
    c.set_base_url("http://other".to_string());
    assert_eq!(c.get_base_url(), "http://other");
    assert!(c.cached_model("a").is_none());
    c.cache_models(&vec![model("a", 1), model("b", 2), model("a", 3)]);
    assert_eq!(c.cached_model("a").map(|m| m.size), Some(3));
    assert_eq!(c.cached_model("b").map(|m| m.size), Some(2));
    assert!(c.cached_model("c").is_none());
}

#[test]
fn finding_models_and_stream_ends() {
    let found = find_model(vec![model("x", 1), model("y", 2), model("y", 3)], "y").expect("present");
    assert_eq!(found.size, 2);
    assert!(find_model(vec![model("x", 1)], "z").is_none());
    assert!(is_done(Some(true)));
    assert!(!is_done(Some(false)));
    assert!(!is_done(None));
}

#[test]
fn string_map_keeps_insertion_order() {
    let mut m: StrMap<u32> = StrMap::new();
    assert_eq!(m.len(), 0);
    m.insert("a".to_string(), 1);
    m.insert("b".to_string(), 2);
    m.insert("a".to_string(), 3);
    assert_eq!(m.len(), 2);
    assert_eq!(m.get("a"), Some(&3));
    assert_eq!(m.position("b"), Some(1));
    assert_eq!(m.entry_at(0), (&"a".to_string(), &3));
    assert_eq!(m.remove("a"), Some(3));
    assert_eq!(m.remove("a"), None);
    assert!(!m.contains_key("a"));
    assert_eq!(m.entry_at(0), (&"b".to_string(), &2));
}

#[test]
fn the_oldest_eligible_are_chosen() {
    let chosen = choose_oldest(&vec![50, 10, 30, 20], &vec![true, true, false, true], 2);
    assert_eq!(chosen, vec![false, true, false, true]);
    assert_eq!(choose_oldest(&vec![5, 6], &vec![true, true], 0), vec![false, false]);
}

#[test]
fn text_helpers() {
    assert_eq!(decimal(0), "0");
    assert_eq!(decimal(12045), "12045");
    let cs: Vec<char> = "  a b  ".chars().collect();
    assert_eq!(trim_chars(&cs).into_iter().collect::<String>(), "a b");
    let words: Vec<char> = " one  two three ".chars().collect();
    assert_eq!(word_count(&words), 3);
    let split: Vec<String> = split_words(&words).into_iter().map(|w| w.into_iter().collect()).collect();
    assert_eq!(split, vec!["one", "two", "three"]);
    let text: Vec<char> = "a\r\nb\n\nc\n".chars().collect();
    let ls: Vec<String> = split_lines(&text).into_iter().map(|l| l.into_iter().collect()).collect();
    assert_eq!(ls, vec!["a", "b", "", "c"]);
    assert_eq!(join_texts(&vec!["x".to_string(), "y".to_string(), "z".to_string()], ", "), "x, y, z");
    assert_eq!(join_texts(&vec![], ", "), "");
}

#[test]
fn local_model_speed_by_size_then_family() {
    assert_eq!(estimate_speed("llama3:70b"), 5);
    assert_eq!(estimate_speed("CodeLlama:34B"), 12);
    assert_eq!(estimate_speed("llama2:13b"), 25);
    assert_eq!(estimate_speed("mistral:7b"), 40);
    assert_eq!(estimate_speed("qwen:1b"), 60);
    assert_eq!(estimate_speed("phi"), 50);
    assert_eq!(estimate_speed("codegemma"), 20);
    assert_eq!(estimate_speed("gemma"), 30);
}
