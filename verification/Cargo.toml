[package]
name = "joi"
version = "0.1.0"
edition = "2021"
publish = false

[dependencies]
anyhow = "=1.0.104"
async-trait = "=0.1.92"
axum = { version = "=0.8.9", features = ["ws"] }
chrono = "=0.4.45"
crossterm = { version = "=0.28.1", features = ["event-stream"] }
directories = "=5.0.1"
figment = { version = "=0.10.19", features = ["env"] }
futures-util = "=0.3.34"
image = { version = "=0.25.10", default-features = false, features = ["jpeg"] }
libc = "=0.2.191"
ratatui = "=0.29.0"
reqwest = { version = "=0.12.28", default-features = false, features = ["rustls-tls"] }
secrecy = "=0.10.3"
serde = { version = "=1.0.229", features = ["derive"] }
serde_json = "=1.0.154"
serde_norway = "=0.9.42"
textwrap = "=0.16.4"
tokio = { version = "=1.54.1", features = ["full"] }
tracing = "=0.1.44"
tracing-appender = "=0.2.5"
tracing-subscriber = { version = "=0.3.23", features = ["env-filter"] }
unicode-width = "=0.2.0"
uuid = { version = "=1.29.0", features = ["v4"] }
nnnoiseless = { version = "=0.5.2", default-features = false }
sonora = "=0.2.0"
