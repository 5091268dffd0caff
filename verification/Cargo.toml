[package]
name = "artifact_store"
version = "0.1.0"
edition = "2021"
publish = false

[dependencies]
serde_json = "=1.0.154"
cairo-lang-starknet-classes = "=2.6.4"
cairo-vm = "=3.2.0"
starknet-crypto = "=0.6.2"
uuid = { version = "=1.29.0", features = ["v4"] }
serde = { version = "=1.0.229", features = ["derive"] }
axum = { version = "=0.7.9", default-features = false, features = ["http1", "tokio", "multipart", "query"] }
sqlx = { version = "=0.7.4", default-features = false, features = ["postgres", "runtime-tokio", "uuid", "migrate"] }
tokio = { version = "=1.54.1", features = ["rt-multi-thread", "macros", "net"] }
tokio-util = { version = "=0.7.20", features = ["io"] }
dotenv = "=0.15.0"
tracing-subscriber = { version = "=0.3.23", default-features = false, features = ["fmt", "std"] }
