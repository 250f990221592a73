[package]
name = "wasmatrix"
version = "0.1.0"
edition = "2021"
publish = false

[dependencies]
md5 = "=0.8.1"
uuid = { version = "=1.27.0", features = ["v4"] }
chrono = "=0.4.45"
wasmtime = "=48.0.5"
reqwest = { version = "=0.13.5", default-features = false, features = ["blocking", "json"] }
serde = { version = "=1.0.229", features = ["derive"] }
serde_json = "=1.0.151"
tokio = { version = "=1.53.2", features = ["rt-multi-thread", "macros", "sync", "time"] }
