[package]
name = "one-kvm-ir"
version = "0.1.0"
edition = "2021"
publish = false

[dependencies]
serde = { version = "1", features = ["derive"] }
serde_json = "1"
tokio = { version = "1", features = ["sync", "rt", "macros", "time"] }
axum = { version = "*", default-features = false, features = ["json", "tokio", "http1"] }
sqlx = { version = "*", default-features = false, features = ["sqlite", "runtime-tokio"] }
gpio-cdev = "*"
libc = "0.2"
tracing = "0.1"
typeshare = "1"
