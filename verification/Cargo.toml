[package]
name = "gameplay_stats"
version = "0.1.0"
edition = "2021"
publish = false

[dependencies]
log = "*"
sqlx = { version = "*", default-features = false, features = ["sqlite", "runtime-tokio"] }
tokio = { version = "*", default-features = false, features = ["fs", "rt"] }
