use socrates_core::ai_clients::{
    capability_label, classify_prompt, generation_target, get_model_capabilities, get_supported_providers,
    provider_label, providers_to_register, stream_session_id, AIClientManager, AIModel, GenerationTarget, MultiAIConfig,
    MultiAIManager,
};
use socrates_core::capability::{AIProvider, ModelCapability};

fn model(id: &str, provider: AIProvider, caps: Vec<ModelCapability>, available: bool) -> AIModel {
    AIModel {
        id: id.to_string(),
        name: id.to_string(),
        provider,
        capabilities: caps,
        context_length: 4096,
        is_available: available,
        description: String::new(),
    }
}

fn manager_with_models() -> AIClientManager {
    let mut m = AIClientManager::new();
    m.register_provider(AIProvider::Ollama);
    m.cache_models(vec![
        model("llama", AIProvider::Ollama, vec![ModelCapability::GeneralChat, ModelCapability::CodeGeneration], true),
        model("gpt-4", AIProvider::OpenAI, vec![ModelCapability::CodeGeneration, ModelCapability::Debugging], true),
        model("offline", AIProvider::Ollama, vec![ModelCapability::Debugging], false),
    ]);
    m
}

#[test]
fn names_of_providers_and_capabilities() {
    assert_eq!(provider_label(AIProvider::OpenAI), "OpenAI");
    assert_eq!(capability_label(ModelCapability::GeneralChat), "GeneralChat");
    assert_eq!(get_supported_providers(), vec!["Ollama", "OpenAI", "Anthropic"]);
    let caps = get_model_capabilities();
    assert_eq!(caps.len(), 10);
    assert_eq!(caps[0], "CodeGeneration");
    assert_eq!(caps[9], "Analysis");
    assert_eq!(classify_prompt("Please write a function to sort"), "CodeGeneration");
    assert_eq!(classify_prompt("hello there"), "GeneralChat");
}

#[test]
fn new_manager_is_empty() {
    let m = AIClientManager::new();
    assert!(m.get_cached_models().is_empty());
    assert_eq!(m.default_provider, AIProvider::Ollama);
    assert!(!m.is_registered(AIProvider::Ollama));
    assert!(m.get_best_model_for_task(ModelCapability::GeneralChat).is_none());
}

#[test]
fn registering_twice_keeps_one() {
    let mut m = AIClientManager::new();
    m.register_provider(AIProvider::Anthropic);
    m.register_provider(AIProvider::Anthropic);
    assert_eq!(m.registered.len(), 1);
    assert!(m.is_registered(AIProvider::Anthropic));
}

#[test]
fn cached_models_by_id_later_wins() {
    let mut m = manager_with_models();
    assert_eq!(m.get_cached_models().len(), 3);
    m.cache_models(vec![model("llama", AIProvider::Ollama, vec![ModelCapability::Testing], true)]);
    assert_eq!(m.get_cached_models().len(), 3);
    assert_eq!(m.get_model("llama").unwrap().capabilities, vec![ModelCapability::Testing]);
    assert!(m.get_model("missing").is_none());
}

#[test]
fn best_model_prefers_routing() {
    let mut m = manager_with_models();
    m.configure_task_routing(ModelCapability::CodeGeneration, vec!["gpt-4".to_string(), "llama".to_string()]);
    assert_eq!(m.get_best_model_for_task(ModelCapability::CodeGeneration).unwrap().id, "gpt-4");
    m.configure_task_routing(ModelCapability::CodeGeneration, vec!["missing".to_string(), "llama".to_string()]);
    assert_eq!(m.get_best_model_for_task(ModelCapability::CodeGeneration).unwrap().id, "llama");
}

#[test]
fn best_model_skips_unavailable_and_incapable() {
    let m = manager_with_models();
    let best = m.get_best_model_for_task(ModelCapability::Debugging).unwrap();
    assert_eq!(best.id, "gpt-4");
    assert!(m.get_best_model_for_task(ModelCapability::Translation).is_none());
}

#[test]
fn provider_for_model_errors() {
    let m = manager_with_models();
    assert_eq!(m.provider_for_model("llama").unwrap(), AIProvider::Ollama);
    assert_eq!(m.provider_for_model("nope").unwrap_err(), "Model nope not found");
    assert_eq!(m.provider_for_model("gpt-4").unwrap_err(), "Provider OpenAI not available");
}

#[test]
fn smart_target_routes_or_fails() {
    let mut m = manager_with_models();
    assert_eq!(
        m.smart_target(ModelCapability::Translation).unwrap_err(),
        "No suitable model found for the requested capability"
    );
    m.configure_task_routing(ModelCapability::Debugging, vec!["gpt-4".to_string()]);
    assert_eq!(m.smart_target(ModelCapability::Debugging).unwrap_err(), "Provider OpenAI not available");
    m.register_provider(AIProvider::OpenAI);
    assert_eq!(m.smart_target(ModelCapability::Debugging).unwrap(), ("gpt-4".to_string(), AIProvider::OpenAI));
    let by_name = m.resolve_target(&GenerationTarget::Model("llama".to_string())).unwrap();
    assert_eq!(by_name, ("llama".to_string(), AIProvider::Ollama));
}

#[test]
fn model_info_found_or_not() {
    let m = manager_with_models();
    assert_eq!(m.model_info("gpt-4").unwrap().provider, AIProvider::OpenAI);
    assert_eq!(m.model_info("x").unwrap_err(), "Model x not found");
}

#[test]
fn provider_health_counts_models() {
    let m = manager_with_models();
    let report = m.provider_health(&vec![(AIProvider::Ollama, true), (AIProvider::OpenAI, false)], "2024-01-01T00:00:00Z");
    assert_eq!(report.providers.len(), 2);
    assert_eq!(report.providers[0].0, "Ollama");
    assert!(report.providers[0].1.healthy);
    assert_eq!(report.providers[0].1.model_count, 2);
    assert_eq!(report.providers[1].0, "OpenAI");
    assert!(!report.providers[1].1.healthy);
    assert_eq!(report.providers[1].1.model_count, 1);
    assert_eq!(report.providers[1].1.last_checked, "2024-01-01T00:00:00Z");
}

#[test]
fn generation_target_choices() {
    assert!(matches!(
        generation_target("x", Some("m".to_string()), None).unwrap(),
        GenerationTarget::Model(id) if id == "m"
    ));
    assert!(matches!(
        generation_target("x", None, Some(Some(ModelCapability::Testing))).unwrap(),
        GenerationTarget::Capability(ModelCapability::Testing)
    ));
    assert_eq!(generation_target("x", None, Some(None)).unwrap_err(), "Invalid capability specified");
    assert!(matches!(
        generation_target("please debug this error", None, None).unwrap(),
        GenerationTarget::Capability(ModelCapability::Debugging)
    ));
}

#[test]
fn stream_session_ids_are_fresh() {
    let a = stream_session_id();
    let b = stream_session_id();
    assert!(a.starts_with("stream_session_"));
    assert_eq!(a.len(), "stream_session_".len() + 36);
    assert_ne!(a, b);
}

#[test]
fn default_config_and_registration() {
    let cfg = MultiAIConfig::default();
    assert_eq!(cfg.default_provider, AIProvider::Ollama);
    assert_eq!(cfg.enabled_providers, vec![AIProvider::Ollama]);
    assert_eq!(providers_to_register(&cfg), vec![AIProvider::Ollama]);
    let keyed = MultiAIConfig {
        default_provider: AIProvider::Anthropic,
        openai_api_key: Some(String::new()),
        anthropic_api_key: Some("k".to_string()),
        task_routing: vec![],
        enabled_providers: vec![],
    };
    assert_eq!(providers_to_register(&keyed), vec![AIProvider::Ollama, AIProvider::Anthropic]);
}

#[test]
fn initialize_providers_applies_config() {
    let mut state = MultiAIManager::new();
    let cfg = MultiAIConfig {
        default_provider: AIProvider::OpenAI,
        openai_api_key: Some("sk".to_string()),
        anthropic_api_key: None,
        task_routing: vec![("Testing".to_string(), "gpt-4".to_string())],
        enabled_providers: vec![AIProvider::OpenAI],
    };
    state.initialize_providers(cfg, &vec![(ModelCapability::Testing, "gpt-4".to_string())]);
    assert!(state.client_manager.is_registered(AIProvider::Ollama));
    assert!(state.client_manager.is_registered(AIProvider::OpenAI));
    assert!(!state.client_manager.is_registered(AIProvider::Anthropic));
    assert_eq!(state.client_manager.default_provider, AIProvider::OpenAI);
    assert_eq!(state.config.default_provider, AIProvider::OpenAI);
    state.client_manager.cache_models(vec![model("gpt-4", AIProvider::OpenAI, vec![ModelCapability::Testing], true)]);
    assert_eq!(state.client_manager.get_best_model_for_task(ModelCapability::Testing).unwrap().id, "gpt-4");
}
