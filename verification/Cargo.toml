[package]
name = "inductor"
version = "0.1.0"
edition = "2021"
publish = false

[dependencies]
anyhow = "=1.0.104"
async-stream = "=0.3.6"
async-trait = "=0.1.92"
futures-core = "=0.3.34"
futures-util = "=0.3.34"
libc = "=0.2.191"
portable-pty = "=0.9.0"
regex = "=1.13.1"
reqwest = { version = "=0.12.28", default-features = false, features = ["json", "stream", "blocking", "rustls-tls"] }
rusqlite = { version = "=0.41.1", features = ["bundled"] }
secrecy = "=0.10.3"
serde = { version = "=1.0.229", features = ["derive"] }
serde_json = "=1.0.154"
sha2 = "=0.10.9"
thiserror = "=2.0.21"
time = { version = "=0.3.55", features = ["formatting", "parsing"] }
tokio = { version = "=1.54.1", features = ["full"] }
tokio-util = "=0.7.20"
vt100 = "=0.17.0"
