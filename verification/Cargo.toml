[package]
name = "tunnel_supervisor"
version = "0.1.0"
edition = "2021"
publish = false

[dependencies]
serde = { version = "*", features = ["derive"] }
serde_json = "*"
tokio = { version = "*", features = ["macros", "process", "rt-multi-thread", "sync", "time", "io-util"] }
