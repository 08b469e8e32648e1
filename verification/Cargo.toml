[package]
name = "gemini_bot"
version = "0.1.0"
edition = "2021"
rust-version = "1.95"
publish = false

[dependencies]
aho-corasick = "=1.1.5"
anyhow = "*"
dptree = "*"
env_logger = "*"
figment = { version = "*", features = ["toml"] }
futures-util = "*"
log = "*"
markdown = "=1.0.0"
mime_guess = "=2.0.5"
reqwest = "*"
serde = { version = "*", features = ["derive"] }
serde_json = "*"
# not used directly: holds teloxide's transitive dependency at the last
# version that builds on the rust-version above (0.1.2 requires a newer rustc)
takecell = "=0.1.1"
teloxide = "=0.17.0"
tokio = { version = "*", features = ["macros", "rt-multi-thread", "sync"] }
