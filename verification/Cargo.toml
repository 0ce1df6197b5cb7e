[package]
name = "etcdv3"
version = "0.1.0"
edition = "2021"
publish = false

[dependencies]
tonic = "=0.14.6"
tonic-prost = "*"
prost = "=0.14.4"
tokio = { version = "=1.53.2", features = ["macros", "rt-multi-thread"] }
