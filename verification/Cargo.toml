[package]
name = "lox_rs"
version = "0.1.0"
edition = "2021"
publish = false

[dependencies]
rustc_apfloat = "*"
anyhow = "*"
clap = { version = "*", features = ["derive"] }
env_logger = "*"
log = "*"
tree-sitter = "*"
