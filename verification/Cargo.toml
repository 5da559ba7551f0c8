[package]
name = "owl_recorder"
version = "0.1.0"
edition = "2021"
publish = false

[dependencies]
uuid = { version = "=1.27.0", features = ["v4"] }
sysinfo = "=0.39.6"
tokio = { version = "=1.53.2", features = ["macros", "rt-multi-thread", "sync", "time", "signal", "fs", "io-util"] }
clap = { version = "=4.6.7", features = ["derive"] }
tracing = "=0.1.44"
tracing-subscriber = "=0.3.23"
color-eyre = "=0.6.5"
obws = "=0.15.0"
serde_json = "=1.0.151"
