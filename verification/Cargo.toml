[package]
name = "editor_session"
version = "0.1.0"
edition = "2021"
publish = false

[dependencies]
anyhow = "1"
async-channel = "2"
futures = "0.3"
itertools = "0.14"
log = "0.4"
sha2 = "0.10"
shellexpand = "2.1"
smol = "2"
