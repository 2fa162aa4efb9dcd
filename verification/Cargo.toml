[package]
name = "ingress_tls"
version = "0.1.0"
edition = "2021"
publish = false

[dependencies]
actix-web = { version = "=4.15.0", features = ["rustls-0_23"] }
async-compat = "=0.2.6"
clap = { version = "=4.6.7", features = ["derive"] }
eyre = "=0.6.14"
futures = "=0.3.34"
gateway-api = "=0.21.0"
inotify = "=0.11.5"
json-patch = "=4.2.0"
k8s-openapi = { version = "=0.27.1", features = ["latest"] }
kube = { version = "=3.1.0", features = ["admission", "client", "derive"] }
rustls = "=0.23.45"
serde = { version = "=1.0.229", features = ["derive"] }
serde_json = "=1.0.151"
smol = "=2.0.2"
