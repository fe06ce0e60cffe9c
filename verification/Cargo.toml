[package]
name = "mesh-agents"
version = "0.1.0"
edition = "2021"
publish = false

[dependencies]
a2a-lf = "=0.4.2"
a2a-server-lf = { version = "=0.5.3", default-features = false }
agent-client-protocol = { version = "=5.0.0", features = ["process"] }
anyhow = "1"
async-trait = "0.1"
axum = "0.8"
clap = { version = "4", features = ["derive"] }
dirs = "=7.0.0"
futures = "0.3"
http-body-util = "0.1"
mesh-llm-plugin = "=0.78.1"
rmcp = { version = "=3.8.0", features = ["server", "transport-io"] }
rusqlite = { version = "=0.41.1", features = ["bundled"] }
schemars = "=1.2.3"
serde = { version = "1", features = ["derive"] }
serde_json = "=1.0.154"
tokio = { version = "1", features = ["full"] }
toml = "=1.1.8"
tower = { version = "0.5", features = ["util"] }
