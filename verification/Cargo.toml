[package]
name = "cpkgs"
version = "0.1.0"
edition = "2021"
publish = false

[dependencies]
sha2 = "*"
anyhow = "*"
axum = "*"
chrono = { version = "*", features = ["serde"] }
clap = { version = "*", features = ["derive"] }
colored = "*"
dialoguer = "*"
dirs = "*"
indicatif = "*"
reqwest = { version = "*", default-features = false, features = ["json"] }
serde = { version = "*", features = ["derive"] }
serde_json = "*"
tokio = { version = "*", features = ["rt-multi-thread", "macros", "net"] }
toml = "*"
tower = "*"
tower-http = { version = "*", features = ["trace", "cors"] }
tracing = "*"
tracing-subscriber = "*"
