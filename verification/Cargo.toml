[package]
name = "gorldle"
version = "0.1.0"
edition = "2021"
publish = false

[dependencies]
rand = "0.9"
serde = { version = "1", features = ["derive"] }
serde_json = "1"
axum = "0.8"
tokio = { version = "1", features = ["macros", "rt-multi-thread", "net", "sync"] }
tower-http = { version = "0.6", features = ["cors"] }
tracing = "0.1"
tracing-subscriber = "0.3"
leptos = { version = "0.7", features = ["csr"] }
gloo-net = { version = "0.6", default-features = false, features = ["http", "json"] }
log = "0.4"
