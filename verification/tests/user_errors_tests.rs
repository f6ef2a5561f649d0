use socrates_core::user_errors::{classify_error, ErrorKind, UserError};

#[test]
fn test_ollama_connection_error() {
    let user_error = UserError::from_error_text("connection refused to localhost:11434");
    assert_eq!(user_error.error_code, "OLLAMA_OFFLINE");
    assert!(user_error.message.contains("Ollama"));
    assert!(user_error.suggestion.is_some());
    assert_eq!(user_error.help_link.as_deref(), Some("https://ollama.ai/download"));
    assert_eq!(user_error.technical_details.as_deref(), Some("connection refused to localhost:11434"));
}

#[test]
fn test_model_not_found_error() {
    let user_error = UserError::from_error_text("model 'llama2' does not exist");
    assert_eq!(user_error.error_code, "MODEL_NOT_FOUND");
    assert!(user_error.message.contains("model"));
}

#[test]
fn test_timeout_error() {
    let user_error = UserError::from_error_text("request timed out after 30 seconds");
    assert_eq!(user_error.error_code, "TIMEOUT");
    assert!(user_error.message.contains("too long"));
}

#[test]
fn every_kind_of_trouble() {
    assert_eq!(classify_error("Could not connect to searxng"), ErrorKind::SearxngOffline);
    assert_eq!(classify_error("connection refused on port 8000"), ErrorKind::ChromadbOffline);
    assert_eq!(classify_error("connection refused"), ErrorKind::ConnectionFailed);
    assert_eq!(classify_error("403 Forbidden"), ErrorKind::AccessDenied);
    assert_eq!(classify_error("No such file or directory"), ErrorKind::FileNotFound);
    assert_eq!(classify_error("DNS lookup failed"), ErrorKind::DnsError);
    assert_eq!(classify_error("Out of memory"), ErrorKind::OutOfMemory);
    assert_eq!(classify_error("something odd"), ErrorKind::Generic);
    assert_eq!(UserError::from_error_text("something odd").error_code, "GENERIC_ERROR");
    assert_eq!(UserError::from_error_text("Could not connect to searxng").error_code, "SEARXNG_OFFLINE");
}

#[test]
fn refused_local_server_wins_over_other_words() {
    assert_eq!(classify_error("connection refused: ollama timed out, permission denied"), ErrorKind::OllamaOffline);
}

#[test]
fn denied_write_is_told_as_access_denied() {
    assert_eq!(classify_error("permission denied: cannot write file"), ErrorKind::AccessDenied);
    assert_eq!(UserError::from_error_text("Permission denied (create)").error_code, "ACCESS_DENIED");
}

#[test]
fn plain_messages() {
    let e = UserError::from_message("disk full");
    assert_eq!(e.title, "Error");
    assert_eq!(e.message, "disk full");
    assert_eq!(e.error_code, "GENERIC_ERROR");
    assert_eq!(e.suggestion.as_deref(), Some("Please try again or contact support if the issue persists."));
    assert!(e.help_link.is_none());
    let o = UserError::from_message("Connection refused by Ollama");
    assert_eq!(o.error_code, "OLLAMA_OFFLINE");
    assert_eq!(o.technical_details.as_deref(), Some("Connection refused by Ollama"));
}

#[test]
fn common_errors() {
    let m = UserError::model_not_available("mistral");
    assert_eq!(m.message, "The 'mistral' model is not available on your system.");
    assert_eq!(m.suggestion.as_deref(), Some("Install it by running: ollama pull mistral"));
    assert_eq!(m.error_code, "MODEL_REQUIRED");
    let s = UserError::service_temporarily_unavailable("SearXNG");
    assert_eq!(s.title, "SearXNG Temporarily Unavailable");
    assert_eq!(s.message, "The SearXNG service is temporarily unavailable.");
    assert_eq!(UserError::ollama_not_running().error_code, "OLLAMA_REQUIRED");
    assert_eq!(UserError::installation_incomplete().help_link.as_deref(), Some("docs/WINDOWS_SETUP.md"));
}
