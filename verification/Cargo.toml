[package]
name = "prosa-hyper"
version = "0.3.0"
edition = "2021"
publish = false

[dependencies]
bytes = "=1.12.1"
config = "=0.15.27"
http = "=1.5.0"
http-body-util = "=0.1.5"
hyper = { version = "=1.12.0", features = ["client", "server", "http1", "http2"] }
hyper-util = { version = "=0.1.21", features = ["tokio", "server", "server-graceful", "service"] }
opentelemetry = { version = "=0.33.1", features = ["metrics"] }
prosa = "=0.5.2"
prosa-utils = "=0.5.2"
rmcp = { version = "=3.8.0", features = ["server", "transport-streamable-http-server"] }
serde = { version = "=1.0.229", features = ["derive"] }
thiserror = "=2.0.21"
tokio = { version = "=1.54.1", features = ["full"] }
tracing = "=0.1.44"
url = { version = "=2.5.8", features = ["serde"] }
