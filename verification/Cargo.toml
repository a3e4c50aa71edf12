[package]
name = "rust_iss"
version = "0.1.0"
edition = "2021"
publish = false

[dependencies]
anyhow = "*"
axum = "*"
chrono = "*"
dotenvy = "*"
serde = { version = "*", features = ["derive"] }
serde_json = "*"
sqlx = { version = "*", default-features = false, features = ["runtime-tokio", "postgres", "chrono"] }
tokio = { version = "*", features = ["rt-multi-thread", "macros", "net", "time", "sync"] }
tower = { version = "*", features = ["limit", "util"] }
tracing = "*"
tracing-subscriber = { version = "*", features = ["env-filter", "fmt"] }
