[package]
name = "pi-acp"
version = "0.1.0"
edition = "2021"
publish = false

[dependencies]
agent-client-protocol-schema = { version = "=1.15.1", default-features = false, features = ["unstable_session_fork"] }
anyhow = "1"
async-trait = "0.1"
clap = { version = "4", features = ["derive", "env"] }
directories = "*"
serde = { version = "1", features = ["derive"] }
serde_json = { version = "=1.0.154", features = ["preserve_order"] }
time = { version = "=0.3.55", features = ["formatting"] }
tokio = { version = "=1.54.1", features = ["rt", "macros", "io-std", "io-util", "process", "sync", "time"] }
tracing = "0.1"
tracing-subscriber = { version = "0.3", features = ["env-filter"] }
uuid = { version = "=1.29.0", features = ["v4"] }
wasi = "=0.11.1"
