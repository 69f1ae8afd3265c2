[package]
name = "kubesitter"
version = "0.1.0"
edition = "2021"
publish = false

[dependencies]
chrono = "0.4"
chrono-tz = "0.8"
regex = "1"
serde = { version = "1", features = ["derive"] }
serde_json = "1"
k8s-openapi = { version = "0.20", features = ["v1_28"] }
kube = { version = "0.87", features = ["runtime", "derive", "client", "rustls-tls"] }
schemars = { version = "0.8", features = ["chrono"] }
tokio = { version = "1", features = ["macros", "rt-multi-thread", "time", "sync"] }
futures = "0.3"
tracing = "0.1"
reqwest = { version = "0.11", default-features = false, features = ["json", "rustls-tls"] }
actix-web = { version = "4", default-features = false, features = ["macros"] }
prometheus = "0.13"
thiserror = "1"
anyhow = "1"
once_cell = "1"
itertools = "0.12"
serde_yaml = "0.9"
