[package]
name = "delta"
version = "0.1.0"
edition = "2021"
publish = false

[dependencies]
chrono = "0.4"
ulid = "1"
iso8601-timestamp = "*"
once_cell = "1"
serde = { version = "1", features = ["derive"] }
serde_json = "1"
