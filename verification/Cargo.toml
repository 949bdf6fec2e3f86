[package]
name = "herdr"
version = "0.1.0"
edition = "2021"
publish = false

[dependencies]
base64 = "0.22"
bytes = "1"
getrandom = "0.3"
libc = "0.2"
regex = "1"
rmcp = { version = "*", default-features = false, features = ["server", "macros", "transport-io", "schemars"] }
schemars = "1"
serde = { version = "1", features = ["derive"] }
serde_json = "1"
sha2 = "0.10"
tokio = { version = "1", features = ["rt", "time", "sync", "macros", "io-std", "io-util"] }
toml = "0.8"
tracing = "0.1"
