[package]
name = "k8s_pki"
version = "0.1.0"
edition = "2021"
publish = false

[dependencies]
openssl = "0.10"
clap = { version = "4", features = ["derive", "env"] }
env_logger = "*"
log = "*"
tokio = { version = "1", features = ["full"] }
kube = "*"
k8s-openapi = { version = "*", features = ["latest"] }
