[package]
name = "round-based-ing"
version = "0.1.0"
edition = "2021"
publish = false

[dependencies]
futures = "0.3"
rcgen = "0.9"
round-based = "*"
rustls = "0.20"
thiserror = "1"
tracing = "0.1"
