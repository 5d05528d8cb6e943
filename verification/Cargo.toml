[package]
name = "cc_version"
version = "0.1.0"
edition = "2021"
publish = false

[dependencies]
cc = "1"
thiserror = "1"
