[package]
name = "rmpv_serde"
version = "0.1.0"
edition = "2021"
publish = false

[dependencies]
rmpv = "*"
serde = "1"
thiserror = "*"
