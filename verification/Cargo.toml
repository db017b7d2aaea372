[package]
name = "rptemp"
version = "0.1.0"
edition = "2021"
publish = false

[dependencies]
anyhow = "=1.0.104"
axum = "=0.8.9"
env_logger = "=0.11.11"
gethostname = "=1.1.0"
log = "=0.4.35"
rusb = "=0.9.4"
serde = { version = "=1.0.229", features = ["derive"] }
serde_json = "=1.0.154"
sysinfo = "0.37"
systemd-journal-logger = "=2.2.2"
tokio = { version = "=1.54.1", features = ["macros", "net", "rt-multi-thread", "time"] }
yaml_serde = "=0.10.7"
