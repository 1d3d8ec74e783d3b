[package]
name = "kube_ssm"
version = "0.1.0"
edition = "2021"
publish = false

[dependencies]
regex = "=1.13.1"
colored = "=3.1.1"
tokio = { version = "=1.54.1", features = ["macros", "rt-multi-thread"] }
aws-config = "=1.13.0"
kube = "=3.1.0"
k8s-openapi = { version = "=0.27.1", features = ["latest"] }
rustls = "=0.23.46"
