[package]
name = "syscall_tracer"
version = "0.1.0"
edition = "2021"
publish = false

[dependencies]
anyhow = "=1.0.104"
aya = "=0.13.1"
crossterm = "=0.29.0"
env_logger = "=0.11.11"
libc = "=0.2.191"
log = "=0.4.35"
ratatui = "=0.30.2"
serde = { version = "=1.0.229", features = ["derive"] }
serde_json = "=1.0.154"
tokio = { version = "=1.54.1", features = ["macros", "rt", "rt-multi-thread", "net", "io-util"] }
