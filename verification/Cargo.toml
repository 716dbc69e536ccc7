[package]
name = "splunk_hec_full"
version = "0.1.0"
edition = "2021"
publish = false

[dependencies]
base64 = "0.22"
bytes = "1"
chrono = { version = "0.4", default-features = false, features = ["clock", "std"] }
flate2 = "1"
futures-util = "0.3"
http = "0.2"
hyper = { version = "0.14", features = ["server", "http1", "tcp", "stream"] }
metrics = "0.24"
serde = { version = "1", features = ["derive"] }
serde_json = "1"
tokio = { version = "1", features = ["macros", "rt-multi-thread", "net", "sync", "fs"] }
tower = { version = "0.4", features = ["util"] }
tracing = "0.1"
uuid = { version = "1", features = ["v4"] }
vrl = { version = "0.27", default-features = false, features = ["value", "path"] }
warp = { version = "0.3", default-features = false }
