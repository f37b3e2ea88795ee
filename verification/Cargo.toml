[package]
name = "mc_networking"
version = "0.1.0"
edition = "2021"
publish = false

[dependencies]
bytes = "=1.12.1"
tokio = { version = "=1.54.1", features = ["rt-multi-thread", "macros", "net", "io-util", "sync"] }
color-eyre = "=0.6.5"
anyhow = "=1.0.104"
serde = { version = "=1.0.229", features = ["derive"] }
serde_json = "=1.0.154"
proguard = "=5.10.5"
syn = { version = "=2.0.119", features = ["full"] }
quote = "=1.0.47"
proc-macro2 = "=1.0.107"
convert_case = "*"
minecraft-data-rs = { version = "*", default-features = false }
