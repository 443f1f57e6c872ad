[package]
name = "cross_encode_rs"
version = "0.1.0"
edition = "2021"
publish = false

[dependencies]
tokenizers = "=0.23.2"
ort = { version = "=2.0.0-rc.15", default-features = false, features = ["ndarray", "load-dynamic"] }
ndarray = "=0.16.1"
hf-hub = { version = "=0.5.0", features = ["tokio"] }
dirs = "=7.0.0"
serde = { version = "=1.0.229", features = ["derive"] }
serde_json = "=1.0.154"
axum = "=0.8.9"
clap = { version = "=4.6.7", features = ["derive"] }
tokio = { version = "=1.54.1", features = ["macros", "rt-multi-thread", "sync", "net", "time", "signal"] }
tracing = "=0.1.44"
tracing-subscriber = { version = "=0.3.23", features = ["json"] }
flate2 = "=1.1.10"
indicatif = "=0.18.6"
