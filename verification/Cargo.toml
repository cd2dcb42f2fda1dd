[package]
name = "taskmill"
version = "0.1.0"
edition = "2021"
publish = false

[dependencies]
sha2 = "0.10"
fastrand = "2"
chrono = "0.4"
serde = { version = "1", features = ["derive"] }
serde_json = "1"
thiserror = "2"
tokio = { version = "1", features = ["sync", "rt", "macros"] }
sqlx = { version = "0.8", default-features = false, features = ["sqlite", "runtime-tokio"] }
