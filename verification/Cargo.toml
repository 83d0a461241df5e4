[package]
name = "storage_node"
version = "0.1.0"
edition = "2021"
publish = false

[dependencies]
alloy = { version = "=1.0.42", default-features = false, features = ["std", "signer-local", "sol-types", "k256", "network", "rpc-types"] }
anyhow = "=1.0.104"
async-trait = "=0.1.92"
base64 = "=0.22.1"
bytes = "=1.12.1"
dashmap = "=6.2.1"
dotenv = "=0.15.0"
futures = { version = "=0.3.34", default-features = false, features = ["std"] }
hex = "=0.4.3"
log = "=0.4.35"
quinn = { version = "=0.10.2", default-features = false, features = ["runtime-tokio", "tls-rustls"] }
rlimit = "=0.10.2"
rustls = { version = "=0.21.12", default-features = false, features = ["dangerous_configuration", "quic"] }
rustls-pemfile = "=1.0.4"
serde = { version = "=1.0.229", features = ["derive"] }
serde_json = "=1.0.154"
tokio = { version = "=1.54.1", features = ["rt-multi-thread", "macros", "sync", "time", "fs", "net", "signal", "io-util"] }
tokio-util = { version = "=0.7.20", features = ["codec"] }
url = "=2.5.8"
