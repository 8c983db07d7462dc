[package]
name = "capulus"
version = "0.6.0"
edition = "2021"
publish = false

[dependencies]
anyhow = "1"
ciborium = "0.2"
clap = { version = "4", features = ["derive"] }
dialoguer = "*"
dirs = "*"
flate2 = "1"
fs2 = "0.4"
indicatif = "*"
libc = "0.2"
rand = "*"
reqwest = { version = "0.12", default-features = false, features = ["blocking", "rustls-tls"] }
rustix = { version = "1", features = ["fs", "net", "process"] }
semver = { version = "1", features = ["serde"] }
serde = { version = "1", features = ["derive"] }
serde_json = "1"
sha2 = "*"
systemd-zbus = "*"
tar = "0.4"
tempfile = "3"
thiserror = "2"
time = { version = "0.3", features = ["parsing", "formatting"] }
tokio = { version = "1", features = ["full"] }
toml = "*"
webbrowser = "*"
zbus = "5"
