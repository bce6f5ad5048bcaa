[package]
name = "influx_retag"
version = "0.1.0"
edition = "2021"
publish = false

[dependencies]
chrono = "*"
influxdb = "*"
serde = { version = "*", features = ["derive"] }
serde_json = "*"
clap = { version = "*", features = ["derive"] }
tokio = { version = "*", features = ["macros", "rt-multi-thread"] }
log = "*"
simplelog = "*"
