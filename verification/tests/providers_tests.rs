use socrates_core::capability::{AIProvider, ModelCapability};
use socrates_core::ollama::ModelInfo;
use socrates_core::providers::{
    anthropic_chunk, anthropic_max_tokens, anthropic_response, ollama_chunk,
    ollama_model, ollama_models, ollama_response, openai_chunk, openai_model, openai_models, openai_response,
    sse_payloads, AnthropicClient, AnthropicEvent, AnthropicReply, MetaValue, OpenAIChoice, OpenAIClient, OpenAIDelta,
    OpenAIReply, TokenUsage,
};

fn text_of(v: &MetaValue) -> &str {
    match v {
        MetaValue::Text(t) => t.as_str(),
        MetaValue::Number(_) => panic!("not text"),
    }
}

#[test]
fn ollama_model_records() {
    let listed = ModelInfo {
        name: "CodeLlama:7b".to_string(),
        modified_at: String::new(),
        size: 1,
        digest: String::new(),
        details: None,
    };
    let m = ollama_model(&listed);
    assert_eq!(m.id, "CodeLlama:7b");
    assert_eq!(m.provider, AIProvider::Ollama);
    assert_eq!(m.description, "Ollama CodeLlama:7b model");
    assert!(m.capabilities.contains(&ModelCapability::CodeGeneration));
    assert!(m.is_available);
    assert_eq!(ollama_models(&vec![listed]).len(), 1);
}

#[test]
fn openai_model_records_and_filter() {
    let m = openai_model("gpt-4");
    assert_eq!(m.description, "OpenAI gpt-4 model");
    assert_eq!(m.context_length, 8192);
    assert_eq!(m.capabilities.len(), 9);
    let ids = vec![
        "gpt-4".to_string(),
        "text-embedding-3-small".to_string(),
        "gpt-embedding-x".to_string(),
        "dall-e-3".to_string(),
        "gpt-3.5-turbo".to_string(),
    ];
    let kept: Vec<String> = openai_models(&ids).into_iter().map(|m| m.id).collect();
    assert_eq!(kept, vec!["gpt-4", "gpt-3.5-turbo"]);
}

#[test]
fn hosted_clients() {
    let mut c = OpenAIClient::new("sk-test".to_string());
    assert_eq!(c.base_url, "https://api.openai.com/v1");
    assert!(c.enabled);
    assert_eq!(c.endpoint("/models"), "https://api.openai.com/v1/models");
    assert_eq!(
        c.headers(),
        vec![
            ("Authorization".to_string(), "Bearer sk-test".to_string()),
            ("Content-Type".to_string(), "application/json".to_string())
        ]
    );
    assert!(c.ensure_enabled().is_ok());
    c.set_enabled(false);
    assert_eq!(c.ensure_enabled().unwrap_err(), "OpenAI provider is not enabled");
    let empty = OpenAIClient::new_with_base_url(String::new(), "http://proxy".to_string());
    assert!(!empty.enabled);
    assert_eq!(empty.base_url, "http://proxy");

    let a = AnthropicClient::new("key".to_string());
    assert_eq!(a.endpoint("/messages"), "https://api.anthropic.com/v1/messages");
    assert_eq!(a.headers()[2], ("anthropic-version".to_string(), "2023-06-01".to_string()));
    assert!(!AnthropicClient::new(String::new()).enabled);
    assert_eq!(
        AnthropicClient::new(String::new()).ensure_enabled().unwrap_err(),
        "Anthropic provider is not enabled"
    );
    assert_eq!(anthropic_max_tokens(None), 4096);
    assert_eq!(anthropic_max_tokens(Some(10)), 10);
}

#[test]
fn openai_replies() {
    let reply = OpenAIReply {
        id: "chatcmpl-1".to_string(),
        created: 1700000000,
        choices: vec![OpenAIChoice {
            message_content: Some("Hi!".to_string()),
            delta_content: None,
            finish_reason: Some("stop".to_string()),
        }],
        usage: Some(TokenUsage { prompt_tokens: 3, completion_tokens: 2, total_tokens: 5 }),
    };
    let r = openai_response("gpt-4", reply);
    assert_eq!(r.content, "Hi!");
    assert_eq!(r.model, "gpt-4");
    assert_eq!(r.provider, AIProvider::OpenAI);
    assert_eq!(r.finish_reason.as_deref(), Some("stop"));
    assert_eq!(r.usage.unwrap().total_tokens, 5);
    assert_eq!(r.metadata[0].0, "id");
    assert_eq!(text_of(&r.metadata[0].1), "chatcmpl-1");
    assert!(matches!(r.metadata[1].1, MetaValue::Number(1700000000)));
    let empty = openai_response("gpt-4", OpenAIReply { id: "x".to_string(), created: 0, choices: vec![], usage: None });
    assert_eq!(empty.content, "");
    assert!(empty.finish_reason.is_none());
}

#[test]
fn anthropic_replies() {
    let reply = AnthropicReply {
        id: "msg_1".to_string(),
        response_type: "message".to_string(),
        content_texts: vec!["Hello".to_string(), "ignored".to_string()],
        stop_reason: Some("end_turn".to_string()),
        stop_sequence: Some("\n\n".to_string()),
        input_tokens: 10,
        output_tokens: 7,
    };
    let r = anthropic_response("model-x", reply);
    assert_eq!(r.content, "Hello");
    assert_eq!(r.usage, Some(TokenUsage { prompt_tokens: 10, completion_tokens: 7, total_tokens: 17 }));
    assert_eq!(r.finish_reason.as_deref(), Some("end_turn"));
    assert_eq!(r.metadata.len(), 3);
    assert_eq!(r.metadata[1].0, "type");
    assert_eq!(text_of(&r.metadata[2].1), "\n\n");
    let o = ollama_response("llama2", "done".to_string());
    assert_eq!(o.finish_reason.as_deref(), Some("stop"));
    assert!(o.usage.is_none());
    assert_eq!(text_of(&o.metadata[0].1), "ollama");
}

#[test]
fn event_stream_payloads() {
    let text = "event: x\ndata: {\"a\":1}\n\ndata: [DONE]\r\nnot data\n";
    assert_eq!(sse_payloads(text), vec!["{\"a\":1}", "[DONE]"]);
    assert!(sse_payloads("").is_empty());
}

#[test]
fn openai_stream_pieces() {
    let payloads = vec!["garbage".to_string(), "{}".to_string(), "[DONE]".to_string()];
    let read = vec![
        None,
        Some(OpenAIDelta { id: "c1".to_string(), content: Some("Hel".to_string()), finished: false }),
        None,
    ];
    let piece = openai_chunk(&payloads, read);
    assert_eq!(piece.content, "Hel");
    assert!(!piece.is_complete);
    assert_eq!(text_of(&piece.metadata[0].1), "c1");

    let done = openai_chunk(&vec!["[DONE]".to_string()], vec![None]);
    assert!(done.is_complete);
    assert_eq!(done.content, "");
    assert!(done.metadata.is_empty());

    let nothing = openai_chunk(&vec!["x".to_string()], vec![None]);
    assert!(!nothing.is_complete);
    assert!(nothing.metadata.is_empty());
}

#[test]
fn anthropic_stream_pieces() {
    let ev = |t: &str, text: Option<&str>, stopped: bool, id: Option<&str>| {
        Some(AnthropicEvent {
            event_type: t.to_string(),
            delta_text: text.map(String::from),
            delta_stopped: stopped,
            message_id: id.map(String::from),
        })
    };
    let piece = anthropic_chunk(vec![
        ev("message_start", None, false, Some("msg_1")),
        ev("content_block_delta", Some("Hel"), false, None),
        None,
        ev("content_block_delta", Some("lo"), false, None),
        ev("ping", Some("ignored"), false, None),
    ]);
    assert_eq!(piece.content, "lo");
    assert!(!piece.is_complete);
    assert_eq!(text_of(&piece.metadata[0].1), "msg_1");
    let stop = anthropic_chunk(vec![ev("message_stop", None, false, None)]);
    assert!(stop.is_complete);
    assert!(stop.metadata.is_empty());
    assert_eq!(stop.content, "");
    let delta_stop = anthropic_chunk(vec![ev("content_block_delta", None, true, None)]);
    assert!(delta_stop.is_complete);
}

#[test]
fn ollama_stream_pieces() {
    let p = ollama_chunk("Hello");
    assert_eq!(p.content, "Hello");
    assert!(!p.is_complete);
    assert!(ollama_chunk("  \n").is_complete);
    assert!(ollama_chunk("{\"done\":true}").is_complete);
}
