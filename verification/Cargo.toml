[package]
name = "object-syncer"
version = "0.1.0"
edition = "2021"
publish = false

[dependencies]
anyhow = "=1.0.104"
env_logger = "=0.11.11"
futures = "=0.3.34"
http-body-util = "=0.1.5"
hyper = { version = "=1.12.0", features = ["http1", "server"] }
hyper-util = { version = "=0.1.21", features = ["tokio"] }
json-patch = "=4.2.0"
k8s-openapi = { version = "=0.25.0", features = ["v1_32"] }
kube = { version = "=1.1.0", features = ["client", "derive", "jsonpatch"] }
kube-runtime = "=1.1.0"
log = "=0.4.35"
opentelemetry = "=0.33.1"
opentelemetry-prometheus = "=0.33.1"
opentelemetry_sdk = "=0.33.1"
prometheus = "=0.14.0"
rustls = { version = "=0.23.46", default-features = false, features = ["ring", "std"] }
schemars = "=0.8.22"
serde = { version = "=1.0.229", features = ["derive"] }
serde_json = "=1.0.154"
thiserror = "=2.0.21"
tokio = { version = "=1.54.1", features = ["macros", "net", "rt-multi-thread", "sync", "time"] }
