[package]
name = "tour_editor"
version = "0.1.0"
edition = "2021"
publish = false

[dependencies]
axum = { version = "*", features = ["ws", "multipart"] }
bcrypt = "*"
futures = "0.3"
serde = { version = "1", features = ["derive"] }
serde_json = "1"
sqlx = { version = "*", default-features = false, features = ["runtime-tokio", "sqlite"] }
tokio = { version = "1", features = ["rt-multi-thread", "macros", "net", "sync", "time", "fs"] }
toml = "*"
tower = "*"
tower-http = { version = "*", features = ["fs", "cors", "set-header"] }
uuid = { version = "1", features = ["v4"] }
