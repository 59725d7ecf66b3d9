[package]
name = "dprint_plugin_prettier"
version = "0.1.0"
edition = "2021"
publish = false

[dependencies]
sysinfo = "*"
zstd = "*"
async-channel = "*"
tokio = { version = "*", features = ["rt", "time", "sync", "macros"] }
serde = "*"
serde_json = "*"
dprint-core = "*"
quick-js = "*"
once_cell = "*"
