[package]
name = "strasbourgpark"
version = "0.1.0"
edition = "2021"
publish = false

[dependencies]
bytes = "1"
futures = "0.3"
hyper = { version = "0.14", features = ["client", "http1", "http2", "tcp"] }
hyper-proxy = "0.9"
hyper-tls = "0.5"
lazy_static = "1"
libc = "0.2"
log = "0.4"
paste = "1"
serde = { version = "1", features = ["derive"] }
serde_json = "1"
thiserror = "1"
tokio = { version = "1", features = ["rt-multi-thread"] }
