[package]
name = "knative_explorer"
version = "0.1.0"
edition = "2021"
publish = false

[dependencies]
kube = { version = "=5.0.0", features = ["runtime", "derive"] }
k8s-openapi = { version = "=0.29.0", features = ["latest"] }
tokio = { version = "=1.54.1", features = ["macros", "rt-multi-thread", "sync", "time"] }
reqwest = { version = "=0.13.5", default-features = false }
serde = { version = "=1.0.229", features = ["derive"] }
schemars = "=1.2.3"
serde_json = "=1.0.154"
futures = "=0.3.34"
rustls = { version = "=0.23.46", default-features = false, features = ["ring", "std", "tls12"] }
