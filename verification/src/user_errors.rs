//! Errors told to the user: which kind of trouble an error message shows,
//! and the title, explanation, advice and help link given for each kind.

use vstd::prelude::*;
use crate::text::{chars_of, concat, concat_parts, concat_views, contains, lower_contains, lowercase, owned, to_lowercase};

verus! {

/// An error as the user is told of it.
#[derive(Debug)]
pub struct UserError {
    pub title: String,
    pub message: String,
    pub suggestion: Option<String>,
    pub help_link: Option<String>,
    pub error_code: String,
    pub technical_details: Option<String>,
}

/// The kinds of trouble an error message is sorted into.
#[derive(Clone, Copy, Debug, PartialEq, Eq, Structural)]
pub enum ErrorKind {
    OllamaOffline,
    SearxngOffline,
    ChromadbOffline,
    ConnectionFailed,
    Timeout,
    ModelNotFound,
    AccessDenied,
    FileNotFound,
    WritePermission,
    DnsError,
    OutOfMemory,
    Generic,
}

/// The kind of trouble a lowercased error message shows. The first rule
/// that applies decides: a refused connection, by the service it names; a
/// timeout; a missing model; denied access; a missing file; a refused write;
/// a name that did not resolve; exhausted memory; anything else.
pub open spec fn error_kind(lower: Seq<char>) -> ErrorKind {
    if contains(lower, "connection refused"@) || contains(lower, "could not connect"@) {
        if contains(lower, "11434"@) || contains(lower, "ollama"@) {
            ErrorKind::OllamaOffline
        } else if contains(lower, "8080"@) || contains(lower, "searxng"@) {
            ErrorKind::SearxngOffline
        } else if contains(lower, "8000"@) || contains(lower, "chroma"@) {
            ErrorKind::ChromadbOffline
        } else {
            ErrorKind::ConnectionFailed
        }
    } else if contains(lower, "timeout"@) || contains(lower, "timed out"@) {
        ErrorKind::Timeout
    } else if contains(lower, "model"@) && (contains(lower, "not found"@) || contains(lower, "does not exist"@)) {
        ErrorKind::ModelNotFound
    } else if contains(lower, "unauthorized"@) || contains(lower, "forbidden"@) || contains(
        lower,
        "permission denied"@,
    ) {
        ErrorKind::AccessDenied
    } else if contains(lower, "no such file"@) || contains(lower, "file not found"@) {
        ErrorKind::FileNotFound
    } else if contains(lower, "permission denied"@) && (contains(lower, "write"@) || contains(lower, "create"@)) {
        ErrorKind::WritePermission
    } else if contains(lower, "dns"@) || contains(lower, "name resolution"@) {
        ErrorKind::DnsError
    } else if contains(lower, "out of memory"@) || contains(lower, "memory allocation"@) {
        ErrorKind::OutOfMemory
    } else {
        ErrorKind::Generic
    }
}

/// The kind of trouble an error message shows.
pub fn classify_error(text: &str) -> (k: ErrorKind)
    ensures
        k == error_kind(lowercase(text@)),
{
    let lower = to_lowercase(text);
    let lv = chars_of(lower.as_str());
    let l = lv.as_slice();
    if lower_contains(l, "connection refused") || lower_contains(l, "could not connect") {
        if lower_contains(l, "11434") || lower_contains(l, "ollama") {
            return ErrorKind::OllamaOffline;
        } else if lower_contains(l, "8080") || lower_contains(l, "searxng") {
            return ErrorKind::SearxngOffline;
        } else if lower_contains(l, "8000") || lower_contains(l, "chroma") {
            return ErrorKind::ChromadbOffline;
        } else {
            return ErrorKind::ConnectionFailed;
        }
    }
    if lower_contains(l, "timeout") || lower_contains(l, "timed out") {
        return ErrorKind::Timeout;
    }
    if lower_contains(l, "model") && (lower_contains(l, "not found") || lower_contains(l, "does not exist")) {
        return ErrorKind::ModelNotFound;
    }
    if lower_contains(l, "unauthorized") || lower_contains(l, "forbidden") || lower_contains(l, "permission denied") {
        return ErrorKind::AccessDenied;
    }
    if lower_contains(l, "no such file") || lower_contains(l, "file not found") {
        return ErrorKind::FileNotFound;
    }
    if lower_contains(l, "permission denied") && (lower_contains(l, "write") || lower_contains(l, "create")) {
        return ErrorKind::WritePermission;
    }
    if lower_contains(l, "dns") || lower_contains(l, "name resolution") {
        return ErrorKind::DnsError;
    }
    if lower_contains(l, "out of memory") || lower_contains(l, "memory allocation") {
        return ErrorKind::OutOfMemory;
    }
    ErrorKind::Generic
}

/// The title, explanation, advice, help link and code given for a kind of
/// trouble.
pub open spec fn kind_texts(k: ErrorKind) -> (Seq<char>, Seq<char>, Seq<char>, Option<Seq<char>>, Seq<char>) {
    match k {
        ErrorKind::OllamaOffline => (
            "Ollama Not Running"@,
            "Cannot connect to Ollama. The AI service appears to be offline."@,
            "Please start Ollama by running 'ollama serve' in your terminal, or restart the Ollama application."@,
            Some("https://ollama.ai/download"@),
            "OLLAMA_OFFLINE"@,
        ),
        ErrorKind::SearxngOffline => (
            "Search Service Unavailable"@,
            "Cannot connect to SearXNG web search service."@,
            "Search functionality will be limited. You can continue using other features normally."@,
            Some("https://docs.searxng.org/admin/installation.html"@),
            "SEARXNG_OFFLINE"@,
        ),
        ErrorKind::ChromadbOffline => (
            "Document Storage Unavailable"@,
            "Cannot connect to ChromaDB document storage service."@,
            "Document management features will be unavailable. Please check if ChromaDB is running."@,
            Some("https://docs.trychroma.com/getting-started"@),
            "CHROMADB_OFFLINE"@,
        ),
        ErrorKind::ConnectionFailed => (
            "Connection Failed"@,
            "Unable to connect to a required service."@,
            "Please check your network connection and ensure all services are running."@,
            None,
            "CONNECTION_FAILED"@,
        ),
        ErrorKind::Timeout => (
            "Operation Timed Out"@,
            "The operation took too long to complete."@,
            "This might be due to network issues or high server load. Please try again in a moment."@,
            None,
            "TIMEOUT"@,
        ),
        ErrorKind::ModelNotFound => (
            "AI Model Not Available"@,
            "The requested AI model is not installed or available."@,
            "Please install the model using 'ollama pull <model-name>' or select a different model from the dropdown."@,
            Some("https://ollama.ai/library"@),
            "MODEL_NOT_FOUND"@,
        ),
        ErrorKind::AccessDenied => (
            "Access Denied"@,
            "You don't have permission to perform this action."@,
            "Please check your credentials or contact your administrator."@,
            None,
            "ACCESS_DENIED"@,
        ),
        ErrorKind::FileNotFound => (
            "File Not Found"@,
            "The requested file or directory could not be found."@,
            "Please check the file path and ensure the file exists."@,
            None,
            "FILE_NOT_FOUND"@,
        ),
        ErrorKind::WritePermission => (
            "Cannot Write File"@,
            "Unable to save changes due to file permission issues."@,
            "Please check file permissions or try running as administrator."@,
            None,
            "WRITE_PERMISSION"@,
        ),
        ErrorKind::DnsError => (
            "Network Error"@,
            "Unable to resolve the server address."@,
            "Please check your internet connection and DNS settings."@,
            None,
            "DNS_ERROR"@,
        ),
        ErrorKind::OutOfMemory => (
            "Memory Error"@,
            "The system has run out of available memory."@,
            "Please close other applications or try working with smaller files."@,
            None,
            "OUT_OF_MEMORY"@,
        ),
        ErrorKind::Generic => (
            "Unexpected Error"@,
            "An unexpected error occurred."@,
            "Please try again. If the problem persists, you can report this issue for assistance."@,
            None,
            "GENERIC_ERROR"@,
        ),
    }
}

fn texts_of(k: ErrorKind) -> (r: (&'static str, &'static str, &'static str, Option<&'static str>, &'static str))
    ensures
        r.0@ == kind_texts(k).0,
        r.1@ == kind_texts(k).1,
        r.2@ == kind_texts(k).2,
        match r.3 {
            Some(h) => kind_texts(k).3 == Some(h@),
            None => kind_texts(k).3 is None,
        },
        r.4@ == kind_texts(k).4,
{
    match k {
        ErrorKind::OllamaOffline => (
            "Ollama Not Running",
            "Cannot connect to Ollama. The AI service appears to be offline.",
            "Please start Ollama by running 'ollama serve' in your terminal, or restart the Ollama application.",
            Some("https://ollama.ai/download"),
            "OLLAMA_OFFLINE",
        ),
        ErrorKind::SearxngOffline => (
            "Search Service Unavailable",
            "Cannot connect to SearXNG web search service.",
            "Search functionality will be limited. You can continue using other features normally.",
            Some("https://docs.searxng.org/admin/installation.html"),
            "SEARXNG_OFFLINE",
        ),
        ErrorKind::ChromadbOffline => (
            "Document Storage Unavailable",
            "Cannot connect to ChromaDB document storage service.",
            "Document management features will be unavailable. Please check if ChromaDB is running.",
            Some("https://docs.trychroma.com/getting-started"),
            "CHROMADB_OFFLINE",
        ),
        ErrorKind::ConnectionFailed => (
            "Connection Failed",
            "Unable to connect to a required service.",
            "Please check your network connection and ensure all services are running.",
            None,
            "CONNECTION_FAILED",
        ),
        ErrorKind::Timeout => (
            "Operation Timed Out",
            "The operation took too long to complete.",
            "This might be due to network issues or high server load. Please try again in a moment.",
            None,
            "TIMEOUT",
        ),
        ErrorKind::ModelNotFound => (
            "AI Model Not Available",
            "The requested AI model is not installed or available.",
            "Please install the model using 'ollama pull <model-name>' or select a different model from the dropdown.",
            Some("https://ollama.ai/library"),
            "MODEL_NOT_FOUND",
        ),
        ErrorKind::AccessDenied => (
            "Access Denied",
            "You don't have permission to perform this action.",
            "Please check your credentials or contact your administrator.",
            None,
            "ACCESS_DENIED",
        ),
        ErrorKind::FileNotFound => (
            "File Not Found",
            "The requested file or directory could not be found.",
            "Please check the file path and ensure the file exists.",
            None,
            "FILE_NOT_FOUND",
        ),
        ErrorKind::WritePermission => (
            "Cannot Write File",
            "Unable to save changes due to file permission issues.",
            "Please check file permissions or try running as administrator.",
            None,
            "WRITE_PERMISSION",
        ),
        ErrorKind::DnsError => (
            "Network Error",
            "Unable to resolve the server address.",
            "Please check your internet connection and DNS settings.",
            None,
            "DNS_ERROR",
        ),
        ErrorKind::OutOfMemory => (
            "Memory Error",
            "The system has run out of available memory.",
            "Please close other applications or try working with smaller files.",
            None,
            "OUT_OF_MEMORY",
        ),
        ErrorKind::Generic => (
            "Unexpected Error",
            "An unexpected error occurred.",
            "Please try again. If the problem persists, you can report this issue for assistance.",
            None,
            "GENERIC_ERROR",
        ),
    }
}

/// The user error `e` tells of trouble of kind `k`, with `details` as its
/// technical details.
pub open spec fn tells(e: UserError, k: ErrorKind, details: Seq<char>) -> bool {
    let t = kind_texts(k);
    &&& e.title@ == t.0
    &&& e.message@ == t.1
    &&& e.suggestion matches Some(s) && s@ == t.2
    &&& match e.help_link {
        Some(h) => t.3 == Some(h@),
        None => t.3 is None,
    }
    &&& e.error_code@ == t.4
    &&& e.technical_details matches Some(d) && d@ == details
}

fn error_of_kind(k: ErrorKind, details: &str) -> (e: UserError)
    ensures
        tells(e, k, details@),
{
    let (title, message, suggestion, help, code) = texts_of(k);
    UserError {
        title: owned(title),
        message: owned(message),
        suggestion: Some(owned(suggestion)),
        help_link: match help {
            Some(h) => Some(owned(h)),
            None => None,
        },
        error_code: owned(code),
        technical_details: Some(owned(details)),
    }
}

impl UserError {
    /// What the user is told of an error, from its message: the texts of the
    /// kind of trouble the message shows, with the message as the technical
    /// details.
    pub fn from_error_text(text: &str) -> (e: UserError)
        ensures
            tells(e, error_kind(lowercase(text@)), text@),
    {
        error_of_kind(classify_error(text), text)
    }

    /// What the user is told of a plain error string: that the local model
    /// server is offline when the string shows a refused connection to it;
    /// otherwise the string itself, with general advice.
    pub fn from_message(text: &str) -> (e: UserError)
        ensures
            ({
                let l = lowercase(text@);
                (contains(l, "connection refused"@) || contains(l, "could not connect"@)) && (contains(l, "11434"@)
                    || contains(l, "ollama"@))
            }) ==> tells(e, ErrorKind::OllamaOffline, text@),
            !({
                let l = lowercase(text@);
                (contains(l, "connection refused"@) || contains(l, "could not connect"@)) && (contains(l, "11434"@)
                    || contains(l, "ollama"@))
            }) ==> {
                &&& e.title@ == "Error"@
                &&& e.message@ == text@
                &&& e.suggestion matches Some(s) && s@
                    == "Please try again or contact support if the issue persists."@
                &&& e.help_link is None
                &&& e.error_code@ == "GENERIC_ERROR"@
                &&& e.technical_details matches Some(d) && d@ == text@
            },
    {
        let lower = to_lowercase(text);
        let lv = chars_of(lower.as_str());
        let l = lv.as_slice();
        if (lower_contains(l, "connection refused") || lower_contains(l, "could not connect")) && (lower_contains(
            l,
            "11434",
        ) || lower_contains(l, "ollama")) {
            return error_of_kind(ErrorKind::OllamaOffline, text);
        }
        UserError {
            title: owned("Error"),
            message: owned(text),
            suggestion: Some(owned("Please try again or contact support if the issue persists.")),
            help_link: None,
            error_code: owned("GENERIC_ERROR"),
            technical_details: Some(owned(text)),
        }
    }

    /// The local model server is required and not running.
    pub fn ollama_not_running() -> (e: UserError)
        ensures
            e.title@ == "Ollama Service Required"@,
            e.message@ == "GerdsenAI Socrates requires Ollama to be running for AI functionality."@,
            e.suggestion matches Some(s) && s@
                == "Please download and start Ollama from ollama.ai, then restart this application."@,
            e.help_link matches Some(h) && h@ == "https://ollama.ai/download"@,
            e.error_code@ == "OLLAMA_REQUIRED"@,
            e.technical_details is None,
    {
        UserError {
            title: owned("Ollama Service Required"),
            message: owned("GerdsenAI Socrates requires Ollama to be running for AI functionality."),
            suggestion: Some(owned("Please download and start Ollama from ollama.ai, then restart this application.")),
            help_link: Some(owned("https://ollama.ai/download")),
            error_code: owned("OLLAMA_REQUIRED"),
            technical_details: None,
        }
    }

    /// A model is not installed.
    pub fn model_not_available(model_name: &str) -> (e: UserError)
        ensures
            e.title@ == "AI Model Not Installed"@,
            e.message@ == "The '"@ + model_name@ + "' model is not available on your system."@,
            e.suggestion matches Some(s) && s@ == "Install it by running: ollama pull "@ + model_name@,
            e.help_link matches Some(h) && h@ == "https://ollama.ai/library"@,
            e.error_code@ == "MODEL_REQUIRED"@,
            e.technical_details is None,
    {
        let parts = ["The '", model_name, "' model is not available on your system."];
        let message = concat_parts(&parts);
        proof { reveal_with_fuel(concat_views, 4); }
        UserError {
            title: owned("AI Model Not Installed"),
            message,
            suggestion: Some(concat("Install it by running: ollama pull ", model_name)),
            help_link: Some(owned("https://ollama.ai/library")),
            error_code: owned("MODEL_REQUIRED"),
            technical_details: None,
        }
    }

    /// A service is down for a while.
    pub fn service_temporarily_unavailable(service: &str) -> (e: UserError)
        ensures
            e.title@ == service@ + " Temporarily Unavailable"@,
            e.message@ == "The "@ + service@ + " service is temporarily unavailable."@,
            e.suggestion matches Some(s) && s@
                == "Some features may be limited. The application will automatically reconnect when the service is available."@,
            e.help_link is None,
            e.error_code@ == "SERVICE_UNAVAILABLE"@,
            e.technical_details is None,
    {
        let parts = ["The ", service, " service is temporarily unavailable."];
        let message = concat_parts(&parts);
        proof { reveal_with_fuel(concat_views, 4); }
        UserError {
            title: concat(service, " Temporarily Unavailable"),
            message,
            suggestion: Some(
                owned(
                    "Some features may be limited. The application will automatically reconnect when the service is available.",
                ),
            ),
            help_link: None,
            error_code: owned("SERVICE_UNAVAILABLE"),
            technical_details: None,
        }
    }

    /// The services are not all set up.
    pub fn installation_incomplete() -> (e: UserError)
        ensures
            e.title@ == "Setup Incomplete"@,
            e.message@ == "Some required services are not properly configured."@,
            e.suggestion matches Some(s) && s@
                == "Please run the setup wizard or check the installation guide for complete setup instructions."@,
            e.help_link matches Some(h) && h@ == "docs/WINDOWS_SETUP.md"@,
            e.error_code@ == "SETUP_INCOMPLETE"@,
            e.technical_details is None,
    {
        UserError {
            title: owned("Setup Incomplete"),
            message: owned("Some required services are not properly configured."),
            suggestion: Some(
                owned("Please run the setup wizard or check the installation guide for complete setup instructions."),
            ),
            help_link: Some(owned("docs/WINDOWS_SETUP.md")),
            error_code: owned("SETUP_INCOMPLETE"),
            technical_details: None,
        }
    }
}

/// A refused connection that names the local model server (by name or by
/// its port) is always told as the server being offline, whatever else the
/// message says.
pub proof fn law_refused_local_server_is_offline(lower: Seq<char>)
    requires
        contains(lower, "connection refused"@) || contains(lower, "could not connect"@),
        contains(lower, "11434"@) || contains(lower, "ollama"@),
    ensures
        error_kind(lower) == ErrorKind::OllamaOffline,
{
}

/// A denied permission is always told as denied access: the rule for
/// refused writes comes after the one for denied access, so no message is
/// sorted into it.
pub proof fn law_denied_write_is_access_denied(lower: Seq<char>)
    ensures
        error_kind(lower) != ErrorKind::WritePermission,
{
}

/// How an error message is sorted, by the phrases its lowercase form holds.
/// A refused connection names its service: the model server (`11434`,
/// `ollama`), the search service (`8080`, `searxng`), the document store
/// (`8000`, `chroma`), else a failed connection. Otherwise a timeout, a
/// missing model, denied access, a missing file, a name that did not
/// resolve and exhausted memory are recognised, in that order; anything
/// else is generic.
pub proof fn law_error_phrases_decide_kind(lower: Seq<char>)
    ensures
        ({
            let k = error_kind(lower);
            let refused = contains(lower, "connection refused"@) || contains(lower, "could not connect"@);
            let local_model = contains(lower, "11434"@) || contains(lower, "ollama"@);
            let search = contains(lower, "8080"@) || contains(lower, "searxng"@);
            let store = contains(lower, "8000"@) || contains(lower, "chroma"@);
            let timeout = contains(lower, "timeout"@) || contains(lower, "timed out"@);
            let missing_model = contains(lower, "model"@) && (contains(lower, "not found"@) || contains(
                lower,
                "does not exist"@,
            ));
            let denied = contains(lower, "unauthorized"@) || contains(lower, "forbidden"@) || contains(
                lower,
                "permission denied"@,
            );
            let missing_file = contains(lower, "no such file"@) || contains(lower, "file not found"@);
            let dns = contains(lower, "dns"@) || contains(lower, "name resolution"@);
            let memory = contains(lower, "out of memory"@) || contains(lower, "memory allocation"@);
            &&& refused && local_model ==> k == ErrorKind::OllamaOffline
            &&& refused && !local_model && search ==> k == ErrorKind::SearxngOffline
            &&& refused && !local_model && !search && store ==> k == ErrorKind::ChromadbOffline
            &&& refused && !local_model && !search && !store ==> k == ErrorKind::ConnectionFailed
            &&& !refused && timeout ==> k == ErrorKind::Timeout
            &&& !refused && !timeout && missing_model ==> k == ErrorKind::ModelNotFound
            &&& !refused && !timeout && !missing_model && denied ==> k == ErrorKind::AccessDenied
            &&& !refused && !timeout && !missing_model && !denied && missing_file ==> k == ErrorKind::FileNotFound
            &&& !refused && !timeout && !missing_model && !denied && !missing_file && dns ==> k
                == ErrorKind::DnsError
            &&& !refused && !timeout && !missing_model && !denied && !missing_file && !dns && memory ==> k
                == ErrorKind::OutOfMemory
            &&& !refused && !timeout && !missing_model && !denied && !missing_file && !dns && !memory ==> k
                == ErrorKind::Generic
        }),
{
}

} // verus!
