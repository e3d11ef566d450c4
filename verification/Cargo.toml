[package]
name = "mes"
version = "0.1.0"
edition = "2021"
publish = false

[dependencies]
ulid = "=1.2.1"
sha2 = "=0.10.9"
rust_decimal = "=1.43.0"
chrono = { version = "=0.4.45", default-features = false, features = ["clock", "std", "serde"] }
serde = { version = "=1.0.229", features = ["derive"] }
serde_json = "=1.0.154"
thiserror = "=1.0.69"
anyhow = "=1.0.104"
async-trait = "=0.1.92"
tracing = "=0.1.44"
tracing-subscriber = { version = "0.3", features = ["env-filter", "fmt"] }
tokio = { version = "=1.54.1", features = ["macros", "rt-multi-thread", "net", "signal"] }
axum = "=0.7.9"
tower-http = { version = "=0.6.11", features = ["trace"] }
sqlx = { version = "=0.8.6", default-features = false, features = ["postgres", "runtime-tokio", "chrono", "rust_decimal", "json", "macros"] }
reqwest = { version = "=0.12.28", default-features = false, features = ["json"] }
utoipa = "=4.2.3"
