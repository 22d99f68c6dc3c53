[package]
name = "podkit"
version = "0.1.0"
edition = "2021"
publish = false

[dependencies]
anyhow = "1"
argon2 = "0.5"
axum = "0.8"
axum-extra = { version = "0.10", features = ["typed-header"] }
dirs = "6"
jsonwebtoken = "9"
quote = "1"
serde = { version = "1", features = ["derive"] }
sqlx = { version = "0.8", default-features = false, features = ["postgres", "runtime-tokio", "time", "migrate", "macros"] }
syn = { version = "2", features = ["full"] }
thiserror = "2"
time = "0.3"
tokio = { version = "1", features = ["rt-multi-thread", "macros"] }
tower-cookies = "0.11"
zeroize = "1"
