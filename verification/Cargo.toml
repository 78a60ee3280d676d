[package]
name = "emunet"
version = "0.1.0"
edition = "2021"
publish = false

[dependencies]
async-openai = { version = "=0.42.1", features = ["chat-completion", "embedding"] }
dotenvy = "=0.15.7"
qdrant-client = "=1.19.0"
reedline-repl-rs = { version = "=1.3.0", features = ["async"] }
tokio = { version = "=1.53.2", features = ["rt-multi-thread", "macros"] }
