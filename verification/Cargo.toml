[package]
name = "image_admission"
version = "0.1.0"
edition = "2021"
publish = false

[dependencies]
axum = "*"
axum-server = { version = "*", features = ["tls-rustls"] }
k8s-openapi = { version = "*", features = ["latest"] }
kube = { version = "*", default-features = false, features = ["admission"] }
prometheus = { version = "*", default-features = false }
tokio = { version = "*", features = ["full"] }
tracing = "*"
tracing-subscriber = { version = "*", features = ["json"] }
