[package]
name = "tasmota"
version = "0.2.0"
edition = "2021"
publish = false

[dependencies]
serde = { version = "=1.0.229", features = ["derive"] }
serde_json = "=1.0.154"
ureq = "=2.12.1"
clap = { version = "=4.6.7", features = ["derive"] }
clap_complete = "=4.6.11"
toml = "=1.1.8"
libc = "=0.2.191"
thiserror = "=2.0.21"
switchkit = "=0.2.0"
tokio = { version = "=1.54.1", features = ["rt-multi-thread", "macros"] }
async-trait = "=0.1.92"
