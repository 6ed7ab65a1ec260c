[package]
name = "sema"
version = "0.1.0"
edition = "2021"
publish = false

[dependencies]
chrono = "0.4"
clap = { version = "4", features = ["derive"] }
clap_complete = "4"
libc = "0.2"
notify-rust = "4.11"
serde = { version = "1", features = ["derive"] }
signal-hook = "0.3"
single-instance = "0.3"
sysinfo = "0.33"
toml = "0.8"
tracing = "0.1"
tracing-subscriber = { version = "0.3", features = ["env-filter"] }
