[package]
name = "juicehost"
version = "0.1.0"
edition = "2021"
publish = false

[dependencies]
async-trait = "0.1"
axum = { version = "=0.7.9", features = ["multipart"] }
bytes = "1"
dashmap = "=6.2.1"
dotenvy = "0.15"
fs2 = "0.4"
futures = "0.3"
infer = "=0.22.0"
jsonwebtoken = "=9.3.1"
libc = "0.2"
mimalloc = { version = "0.1", default-features = false }
mime_guess = "=2.0.5"
object_store = { version = "=0.14.2", features = ["aws"] }
reqwest = { version = "0.12", default-features = false, features = ["json", "rustls-tls"] }
sentry = { version = "=0.49.5", default-features = false, features = ["tower", "tower-http"] }
sentry-tracing = "=0.49.5"
serde = { version = "1", features = ["derive"] }
serde_json = { version = "1", features = ["raw_value"] }
tokio = { version = "1", features = ["full"] }
tower = { version = "0.5", features = ["limit", "util"] }
tower-http = { version = "=0.6.11", features = ["cors", "timeout", "trace"] }
tracing = "0.1"
tracing-subscriber = { version = "0.3", features = ["env-filter"] }
utoipa = "=6.0.0"
