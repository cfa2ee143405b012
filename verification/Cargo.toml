[package]
name = "lispish"
version = "0.1.0"
edition = "2021"
publish = false

[dependencies]
regex = "*"
rustyline = "*"
log = "*"
pretty_env_logger = "*"
