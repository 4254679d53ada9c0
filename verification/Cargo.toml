[package]
name = "quoridor"
version = "0.1.0"
edition = "2021"
publish = false

[dependencies]
env_logger = "*"
iron = "*"
mount = "*"
router = "*"
rustc-serialize = "*"
staticfile = "*"
