[package]
name = "sbox"
version = "0.2.0"
edition = "2021"
publish = false

[dependencies]
indexmap = "2"
sha2 = "0.10"
hex = "0.4"
serde = { version = "1", features = ["derive"] }
serde_yaml = "0.9"
serde_json = "1"
clap = { version = "4", features = ["derive"] }
thiserror = "2"
tracing = "0.1"
tracing-subscriber = "0.3"
dialoguer = "0.11"
which = "*"
landlock = "*"
libc = "0.2"
chrono = "0.4"

[dev-dependencies]
tempfile = "3"
