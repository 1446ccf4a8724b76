[package]
name = "provisioner"
version = "0.1.0"
edition = "2021"
publish = false

[dependencies]
tokio = { version = "*", features = ["rt-multi-thread", "macros", "io-util", "time", "sync"] }
lapin = "*"
futures = "*"
openssh = "*"
diesel = { version = "*", features = ["postgres", "r2d2"] }
r2d2_redis = "*"
