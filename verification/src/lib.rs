//! Verified core of the Socrates coding assistant: prompt classification,
//! context budgeting, operation scheduling, health tracking, stream framing,
//! in-memory document retrieval, chat history and editor text helpers.

pub mod text;
pub mod capability;
pub mod context;
pub mod files;
pub mod keyed;
pub mod clock;
pub mod random;
pub mod operations;
pub mod queue;
pub mod health;
pub mod stream;
pub mod select;
pub mod hits;
pub mod query_cache;
pub mod thread_pool;
pub mod docstore;
pub mod history;
pub mod ollama;
pub mod code_analysis;
pub mod editor;
pub mod analysis;
pub mod mcp;
pub mod search;
pub mod ai_clients;
pub mod commands;
pub mod user_errors;
pub mod scraper;
pub mod providers;
pub mod file_watch;
