[package]
name = "omnidrive"
version = "0.1.0"
edition = "2021"
publish = false

[dependencies]
axum = "=0.8.9"
base64 = "=0.23.1"
chrono = "=0.4.45"
dirs = "=7.0.0"
glob = "=0.3.4"
mime_guess = "=2.0.5"
notify = "=8.2.0"
pdf-extract = "=0.12.1"
regex = "=1.13.1"
rmcp = { version = "=3.7.0", features = ["server", "macros", "transport-io", "transport-streamable-http-server"] }
schemars = "=1.2.3"
serde = { version = "=1.0.229", features = ["derive"] }
serde_json = "=1.0.154"
sysinfo = "=0.39.6"
tokio = { version = "=1.54.1", features = ["full"] }
tower-http = { version = "=0.7.1", features = ["cors"] }
uuid = { version = "=1.29.0", features = ["v4"] }
walkdir = "=2.5.0"
zip = { version = "=9.0.5", default-features = false, features = ["deflate"] }
