[package]
name = "push_service"
version = "0.1.0"
edition = "2021"
publish = false

[dependencies]
anyhow = "*"
chrono = "*"
dotenvy = "*"
envy = "*"
futures-util = "*"
gcp_auth = "*"
lapin = "*"
rand = "*"
redis = { version = "*", features = ["tokio-comp"] }
reqwest = { version = "*", default-features = false, features = ["json", "rustls-tls"] }
serde = { version = "*", features = ["derive"] }
serde_json = "*"
tokio = { version = "*", features = ["full"] }
tokio-postgres = { version = "*", features = ["with-uuid-1", "with-serde_json-1"] }
uuid = "*"
