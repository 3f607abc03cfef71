[package]
name = "zeron"
version = "0.1.0"
edition = "2021"
publish = false

[dependencies]
anyhow = "=1.0.104"
chrono = "=0.4.45"
clap = { version = "=4.6.7", features = ["derive"] }
libc = "=0.2.191"
mimalloc = { version = "=0.1.52", features = ["v2"] }
serde_json = "=1.0.154"
tokio = { version = "=1.54.1", features = ["rt-multi-thread"] }
tracing = "=0.1.44"
tracing-subscriber = { version = "=0.3.23", features = ["env-filter"] }
windows-sys = { version = "=0.61.2", features = ["Win32_Foundation", "Win32_System_Console"] }
