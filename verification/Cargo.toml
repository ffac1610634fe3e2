[package]
name = "design_patterns_agent"
version = "0.1.0"
edition = "2021"
publish = false

[dependencies]
syn = { version = "=2.0.119", features = ["full", "parsing", "printing"] }
quote = "=1.0.47"
proc-macro2 = { version = "=1.0.107", features = ["span-locations"] }
anyhow = "=1.0.104"
serde = { version = "=1.0.229", features = ["derive"] }
serde_json = "=1.0.154"
toml = "=1.1.8"
toml_edit = "=0.25.18"
tokio = { version = "=1.54.1", features = ["full"] }
async-trait = "=0.1.92"
reqwest = { version = "=0.12.28", default-features = false, features = ["json", "rustls-tls"] }
async-openai = { version = "=0.43.0", default-features = false, features = ["rustls", "chat-completion"] }
clap = { version = "=4.6.7", features = ["derive", "env"] }
chrono = "=0.4.45"
walkdir = "=2.5.0"
uuid = { version = "=1.29.0", features = ["v4"] }
regex = "=1.13.1"
