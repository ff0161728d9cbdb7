[package]
name = "steam_patch"
version = "0.1.0"
edition = "2021"
publish = false

[dependencies]
regex = "*"
serde = { version = "*", features = ["derive"] }
serde_json = "*"
toml = "*"
tokio = { version = "*", features = ["full"] }
reqwest = { version = "*", default-features = false }
tungstenite = "*"
dirs = "*"
sysinfo = "*"
evdev = { version = "*", features = ["tokio"] }
futures = "*"
