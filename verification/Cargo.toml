[package]
name = "driftlet"
version = "0.1.0"
edition = "2021"
publish = false

[dependencies]
serde = { version = "=1.0.229", features = ["derive"] }
serde_json = "=1.0.154"
zip = { version = "=2.6.1", default-features = false, features = ["deflate"] }
percent-encoding = "=2.3.2"
sysinfo = { version = "=0.33.1", default-features = false, features = ["system"] }
global-hotkey = "=0.9.0"
notify = "=6.1.1"
image = { version = "=0.25.10", default-features = false, features = ["png"] }
log = "=0.4.35"
