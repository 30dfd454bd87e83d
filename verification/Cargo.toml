[package]
name = "codeg"
version = "0.1.0"
edition = "2021"
publish = false

[dependencies]
agent-client-protocol-schema = { version = "=0.11.7", features = ["unstable_session_usage"] }
async-trait = "=0.1.92"
axum = { version = "=0.8.9", features = ["ws"] }
base64 = "=0.22.1"
chrono = "=0.4.45"
if-addrs = "=0.15.0"
kill_tree = { version = "=0.2.4", features = ["tokio"] }
libc = "=0.2.191"
rand = "=0.8.8"
regex = "=1.13.1"
reqwest = { version = "=0.12.28", default-features = false, features = ["json", "stream", "rustls-tls"] }
sacp = "=11.0.0"
sea-orm = { version = "=1.1.20", default-features = false, features = ["macros"] }
sea-orm-migration = { version = "=1.1.20", default-features = false }
serde = { version = "=1.0.229", features = ["derive"] }
serde_json = { version = "=1.0.154", features = ["float_roundtrip"] }
serde_yaml = "=0.9.34"
sha2 = "=0.10.9"
shlex = "=1.3.0"
tokio = { version = "=1.54.1", features = ["full"] }
tower = { version = "=0.5.3", features = ["util"] }
tracing = "=0.1.44"
uuid = { version = "=1.29.0", features = ["v4"] }
