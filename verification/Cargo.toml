[package]
name = "refresh"
version = "0.1.0"
edition = "2021"
publish = false

[dependencies]
axum = "0.6"
clap = { version = "4", features = ["derive"] }
ignore = "0.4"
libc = "0.2"
postcard = { version = "1", features = ["alloc"] }
reqwest = { version = "0.11", default-features = false }
rusty_ulid = "2"
seahash = "4"
serde = { version = "1", features = ["derive"] }
serde_bytes = "0.11"
sqlx = { version = "0.7", default-features = false, features = ["runtime-tokio", "postgres", "macros"] }
tokio = { version = "1", features = ["full"] }
