[package]
name = "libconfig_ser"
version = "0.1.0"
edition = "2021"
publish = false

[dependencies]
anyhow = "1"
serde = "1"
thiserror = "1"
