[package]
name = "oxybox"
version = "0.1.0"
edition = "2021"
publish = false

[dependencies]
chrono = { version = "0.4", default-features = false, features = ["now"] }
log = "0.4"
native-tls = "0.2"
prost = { version = "0.13", default-features = false, features = ["std"] }
reqwest = "0.12"
serde = { version = "1", features = ["derive"] }
serde_yaml = "0.9"
snap = "1"
tokio = { version = "1", features = ["rt-multi-thread", "macros", "net", "time"] }
tokio-native-tls = "0.3"
trust-dns-resolver = "0.23"
unicode-truncate = "*"
url = "2"
x509-parser = "*"
