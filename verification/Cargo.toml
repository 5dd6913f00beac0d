[package]
name = "w1_gate"
version = "0.1.0"
edition = "2021"
publish = false

[dependencies]
anyhow = "1"
clap = { version = "4", features = ["derive", "env"] }
dashmap = "6"
log = "0.4"
log4rs = "1"
mio = { version = "1", features = ["os-ext", "os-poll"] }
reqwest = { version = "0.12", default-features = false, features = ["blocking", "default-tls"] }
serde = { version = "1", features = ["derive"] }
serde_yaml_ng = "0.10"
udev = { version = "0.9", features = ["mio"] }
