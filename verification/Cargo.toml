[package]
name = "remcached"
version = "0.2.0"
edition = "2021"
publish = false

[dependencies]
thiserror = "=2.0.21"
log = "=0.4.35"
tokio = { version = "=1.54.1", default-features = false, features = ["rt"] }
dashmap = "*"
