[package]
name = "haproxy-stats"
version = "0.1.0"
edition = "2021"
publish = false

[dependencies]
chrono = { version = "=0.4.45", default-features = false, features = ["std"] }
csv = "=1.4.0"
duration-str = { version = "=0.21.0", default-features = false }
futures-util-either = "=0.2.0"
semver = "=1.0.28"
serde_json = "=1.0.154"
tokio = { version = "=1.54.1", features = ["net", "io-util"] }
