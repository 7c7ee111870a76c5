[package]
name = "ghfs"
version = "0.1.0"
edition = "2021"
publish = false

[dependencies]
anyhow = "=1.0.104"
base64 = "=0.13.1"
bimap = "=0.6.3"
clap = "=2.34.0"
env_logger = "=0.8.4"
fuse = "=0.3.1"
futures = "=0.3.34"
libc = "=0.2.191"
log = "=0.4.35"
regex = "=1.13.1"
reqwest = { version = "=0.11.27", default-features = false, features = ["json", "rustls-tls"] }
rpassword = "=5.0.1"
serde = { version = "=1.0.229", features = ["derive"] }
serde_derive = "=1.0.229"
signal-hook = "=0.3.18"
signal-hook-tokio = { version = "=0.3.1", features = ["futures-v0_3"] }
time = "=0.1.45"
tokio = { version = "=1.54.1", features = ["rt-multi-thread", "macros", "sync"] }
users = "=0.11.0"
uuid = { version = "=0.8.2", features = ["v4"] }
