[package]
name = "polybot"
version = "0.1.0"
edition = "2021"
publish = false

[dependencies]
hex = "*"
uuid = { version = "*", features = ["v4"] }
chrono = { version = "*", default-features = false, features = ["clock", "std"] }
tokio = { version = "*", features = ["rt-multi-thread", "macros", "time", "net", "sync"] }
serde = { version = "*", features = ["derive"] }
serde_json = "*"
axum = "*"
tower-http = { version = "*", features = ["cors"] }
reqwest = { version = "*", default-features = false, features = ["json"] }
tracing = "*"
tracing-subscriber = "*"
dotenv = "*"
