[package]
name = "lsp_web"
version = "0.1.0"
edition = "2021"
publish = false

[dependencies]
crossbeam = "0.7"
env_logger = "0.6"
log = "0.4"
lsp-types = "0.57"
serde = { version = "1", features = ["derive"] }
serde_json = "1"
tera = "0.11"
warp = { version = "0.1", default-features = false }
