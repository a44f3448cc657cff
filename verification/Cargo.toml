[package]
name = "bluesky_firehose_stream"
version = "0.1.0"
edition = "2021"
publish = false

[dependencies]
serde_ipld_dagcbor = "*"
rs-car-sync = "*"
atrium-api = "*"
cid = "*"
ipld-core = "*"
tokio = { version = "*", features = ["macros", "rt-multi-thread", "time"] }
tokio-tungstenite = "*"
futures = "*"
tracing = "*"
tracing-subscriber = { version = "*", features = ["env-filter"] }
dotenvy = "*"
anyhow = "*"
atty = "*"
prometheus = "*"
lazy_static = "*"
serde_json = "*"

[dev-dependencies]
sha2 = "*"
