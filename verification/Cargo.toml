[package]
name = "rddns"
version = "0.1.0"
edition = "2021"
publish = false

[dependencies]
base64 = "*"
regex = "1"
pnet = "*"
ipnetwork = "*"
serde = { version = "1", features = ["derive"] }
toml = "*"
clap = "4"
hyper = { version = "0.14", features = ["full"] }
hyper-rustls = "0.24"
tokio = { version = "1", features = ["rt-multi-thread", "macros", "time", "net"] }
futures = "0.3"
futures-util = "0.3"
log = "0.4"
simplelog = "*"
