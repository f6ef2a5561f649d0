[package]
name = "socrates_core"
version = "0.1.0"
edition = "2021"
publish = false

[dependencies]
uuid = { version = "1", features = ["v4", "serde"] }
glob = "0.3"
num_cpus = "1"
regex = "1"
html-escape = "0.2"
md5 = "0.7"
chrono = { version = "0.4", features = ["serde"] }
rand = "0.8"
serde = { version = "1", features = ["derive"] }
serde_json = "1"
tokio = { version = "1", features = ["full"] }
reqwest = { version = "0.12", default-features = false, features = ["json", "stream"] }
futures-util = "0.3"
futures = "0.3"
bytes = "1"
dashmap = "5"
walkdir = "2"
tower-lsp = "0.20"
url = "2"
notify = "6"
async-trait = "0.1"
tokio-stream = "0.1"
async-stream = "0.3"
tracing = "0.1"
tracing-subscriber = { version = "0.3", features = ["env-filter"] }
