[package]
name = "pocket_llama"
version = "0.1.0"
edition = "2021"
publish = false

[dependencies]
anyhow = "=1.0.104"
axum = "=0.7.9"
candle-core = "=0.8.4"
candle-transformers = "=0.8.4"
clap = { version = "=4.6.7", features = ["derive"] }
rustyline = "=14.0.0"
serde = { version = "=1.0.229", features = ["derive"] }
sysinfo = "=0.30.13"
thiserror = "=1.0.69"
tokenizers = { version = "=0.21.4", default-features = false, features = ["onig"] }
tokio = { version = "=1.54.1", features = ["full"] }
tower-http = { version = "=0.5.2", features = ["cors"] }
webbrowser = "=1.2.6"
