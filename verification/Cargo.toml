[package]
name = "overseer"
version = "0.1.0"
edition = "2021"
publish = false

[dependencies]
actix = "=0.13.5"
actix-web = { version = "=4.18.1", default-features = false, features = ["macros"] }
awc = { version = "=3.11.0", default-features = false }
actix-signal = "=0.3.0"
ansi_term = "=0.12.1"
flexi_logger = "=0.22.6"
futures = "=0.3.34"
log = "=0.4.35"
nix = "=0.26.4"
pretty_env_logger = "=0.4.0"
serde = { version = "=1.0.229", features = ["derive"] }
serde_json = "=1.0.154"
serde_yaml = "=0.9.34"
humantime-serde = "=1.1.1"
shlex = "=1.3.0"
signal-hook = "=0.3.18"
signal-hook-tokio = { version = "=0.3.1", features = ["futures-v0_3"] }
thiserror = "=1.0.69"
time = { version = "=0.3.9", features = ["formatting", "macros"] }
tokio = { version = "=1.54.1", features = ["full"] }
tokio-util = { version = "=0.7.20", features = ["codec"] }
