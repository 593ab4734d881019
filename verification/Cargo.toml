[package]
name = "aurora"
version = "0.1.0"
edition = "2021"
publish = false

[dependencies]
uuid = { version = "1", features = ["v5"] }
rand = "0.8"
base64 = "0.22"
serde = { version = "1", features = ["derive"] }
serde_json = "1"
image = { version = "0.25", default-features = false, features = ["jpeg", "png"] }
tokio = { version = "1", features = ["full"] }
rusqlite = { version = "*", features = ["bundled"] }
rodio = "0.21"
lofty = "0.22"
symphonia = "0.5"
walkdir = "2"
notify = "8"
dirs = "6"
daemonize = "0.5"
signal-hook = "0.3"
mpris-server = "*"
tracing = "0.1"
tracing-subscriber = "0.3"
anyhow = "1"
