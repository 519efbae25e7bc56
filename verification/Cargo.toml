[package]
name = "robotlb"
version = "0.1.0"
edition = "2021"
publish = false

[dependencies]
clap = { version = "4", features = ["derive", "env"] }
dotenvy = "=0.15.7"
futures = "0.3"
hcloud = { version = "=0.26.0", default-features = false, features = ["rustls-tls"] }
k8s-openapi = { version = "=0.23.0", features = ["v1_31"] }
kube = { version = "=0.96.0", features = ["runtime"] }
tikv-jemallocator = "=0.7.0"
tokio = { version = "1", features = ["macros", "rt-multi-thread"] }
tracing = "0.1"
tracing-subscriber = "0.3"
