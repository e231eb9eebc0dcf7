[package]
name = "chromium_mcp"
version = "0.1.0"
edition = "2021"
publish = false

[dependencies]
anyhow = "=1.0.104"
axum = "=0.8.9"
base64 = "=0.22.1"
chromiumoxide = "=0.9.1"
clap = { version = "=4.6.7", features = ["derive", "env"] }
futures = "=0.3.34"
rmcp = { version = "=1.7.0", features = ["server", "macros", "transport-io", "transport-streamable-http-server"] }
rmcp-macros = "=1.7.0"
serde = { version = "=1.0.229", features = ["derive"] }
serde_json = "=1.0.154"
tokio = { version = "=1.54.1", features = ["full"] }
tracing = "=0.1.44"
tracing-subscriber = { version = "=0.3.23", features = ["env-filter"] }
