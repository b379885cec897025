[package]
name = "vproxy"
version = "0.1.0"
edition = "2021"
publish = false

[dependencies]
axum = "0.6"
dotenv = "0.15"
hyper = { version = "0.14", features = ["client", "http1", "http2", "runtime", "server", "tcp"] }
tokio = { version = "1", features = ["macros", "rt-multi-thread", "signal", "sync", "time"] }
tower-http = { version = "0.4", features = ["cors", "trace"] }
tracing = "0.1"
tracing-subscriber = { version = "0.3", features = ["env-filter"] }
