[package]
name = "dfs_node"
version = "0.1.0"
edition = "2021"
publish = false

[dependencies]
libp2p = { version = "=0.52.4", features = ["tokio", "tcp", "noise", "yamux", "kad", "request-response", "mdns", "floodsub", "ping", "macros"] }
tokio = { version = "1", features = ["full"] }
futures = "0.3"
clap = { version = "3.2", features = ["derive"] }
anyhow = "1"
async-trait = "0.1"
tracing = "0.1"
tracing-subscriber = "0.3"

[dev-dependencies]
unsigned-varint = "0.7"
