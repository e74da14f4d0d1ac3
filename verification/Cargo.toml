[package]
name = "weyvelength"
version = "0.1.0"
edition = "2021"
publish = false

[dependencies]
dashmap = "=6.2.1"
uuid = { version = "=1.29.0", features = ["v4"] }
tokio = { version = "=1.54.1", features = ["rt-multi-thread", "macros", "sync", "net"] }
tokio-stream = "=0.1.19"
tonic = "=0.14.6"
tonic-prost = "0.14"
prost = "0.14"
tower = { version = "=0.5.3", features = ["util"] }
clap = { version = "=4.6.7", features = ["derive"] }
serde = { version = "=1.0.229", features = ["derive"] }
serde_json = "=1.0.154"
