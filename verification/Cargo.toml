[package]
name = "wsx"
version = "0.1.0"
edition = "2021"
publish = false

[dependencies]
anyhow = "*"
cmd_lib = "*"
home = "*"
log = "*"
pico-args = "*"
serde = { version = "*", features = ["derive"] }
sha2 = "*"
toml = "*"
tracing = "*"
tracing-subscriber = { version = "*", features = ["env-filter"] }
