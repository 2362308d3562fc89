[package]
name = "xui_core"
version = "0.1.0"
edition = "2021"
publish = false

[dependencies]
serde = { version = "*", features = ["derive"] }
serde_json = "*"
tokio = { version = "*", features = ["rt-multi-thread", "macros", "process", "fs", "time", "io-util"] }
sqlx = { version = "*", default-features = false, features = ["runtime-tokio", "sqlite"] }
reqwest = { version = "*", default-features = false, features = ["rustls-tls"] }
zip = { version = "*", default-features = false, features = ["deflate"] }
sysinfo = "*"
chrono = "*"
dotenvy = "*"
