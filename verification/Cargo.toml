[package]
name = "kubectl_watch"
version = "0.1.0"
edition = "2021"
publish = false

[dependencies]
kube = { version = "*", default-features = false }
k8s-openapi = { version = "*", features = ["latest"] }
ratatui = "*"
serde = { version = "*", features = ["derive"] }
serde_yaml = "*"
