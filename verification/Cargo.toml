[package]
name = "opendut_cluster"
version = "0.1.0"
edition = "2021"
publish = false

[dependencies]
config = { version = "0.14", default-features = false }
serde = { version = "1", features = ["derive"] }
uuid = { version = "1", features = ["v4"] }
tokio = { version = "1", features = ["sync"] }
futures = "0.3"
tracing = "0.1"
clap = { version = "4", features = ["derive"] }
thiserror = "1"
