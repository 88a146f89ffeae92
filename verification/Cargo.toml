[package]
name = "strife"
version = "0.1.0"
edition = "2021"
publish = false

[dependencies]
uuid = { version = "1", features = ["v4", "v5"] }
chrono = { version = "0.4", features = ["serde"] }
serde = { version = "1", features = ["derive"] }
serde_json = "1"
sqlx = { version = "0.8", default-features = false, features = ["postgres", "runtime-tokio", "macros", "migrate", "chrono", "uuid", "json"] }
thiserror = "2"
tokio = { version = "1", features = ["fs", "rt", "macros"] }
tracing = "0.1"
anyhow = "1"
async-trait = "0.1"
