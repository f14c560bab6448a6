[package]
name = "db_access"
version = "0.1.0"
edition = "2021"
publish = false

[dependencies]
anyhow = "*"
axum = "*"
serde = { version = "*", features = ["derive"] }
sqlx = { version = "*", default-features = false, features = ["postgres", "runtime-tokio", "migrate", "uuid"] }
tokio = { version = "*", features = ["rt-multi-thread", "macros", "net", "time"] }
tracing = "*"
tracing-subscriber = { version = "*", features = ["env-filter", "fmt"] }
utoipa = "*"
uuid = { version = "*", features = ["v4", "serde"] }
