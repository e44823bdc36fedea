[package]
name = "chainpulse"
version = "0.1.0"
edition = "2021"
publish = false

[dependencies]
prometheus = { version = "=0.14.0", default-features = false }
prost = "=0.13.5"
ibc-proto = "=0.52.0"
tendermint = "=0.40.4"
subtle-encoding = "=0.5.1"
tokio = { version = "*", features = ["rt", "macros", "time"] }
tendermint-rpc = { version = "=0.40.4", features = ["websocket-client"] }
serde = { version = "*", features = ["derive"] }
serde_json = "*"
toml = "*"
axum = "*"
reqwest = { version = "*", default-features = false, features = ["json"] }
clap = { version = "*", features = ["derive"] }
ctrlc = "*"
futures = "*"
tracing = "*"
tracing-subscriber = { version = "*", features = ["env-filter", "fmt"] }
