[package]
name = "pgferry"
version = "0.1.0"
edition = "2021"
publish = false

[dependencies]
async-trait = "*"
clap = { version = "*", features = ["derive"] }
futures = "*"
pgwire = { version = "*", features = ["server-api-aws-lc-rs", "client-api-aws-lc-rs"] }
regex = "1"
rustls-pemfile = "2"
serde = { version = "1", features = ["derive"] }
thiserror = "2"
tokio = { version = "1", features = ["full"] }
tokio-util = { version = "*", features = ["codec"] }
toml = "*"
tracing = "0.1"
tracing-subscriber = { version = "0.3", features = ["env-filter"] }
