[package]
name = "lb_9000"
version = "0.1.0"
edition = "2021"
publish = false

[dependencies]
anyhow = "=1.0.104"
dashmap = "=6.2.1"
dotenvy = "=0.15.7"
env_logger = "=0.11.11"
envconfig = "=0.11.1"
futures = "=0.3.34"
http = "=0.2.12"
hyper = "=0.14.32"
k8s-openapi = { version = "=0.27.1", features = ["latest"] }
kube = { version = "=3.1.0", features = ["client", "runtime"] }
reqwest = { version = "=0.12.28", default-features = false }
thiserror = "=2.0.21"
tokio = { version = "=1.54.1", features = ["macros", "rt-multi-thread", "sync", "time"] }
warp = "=0.3.7"
