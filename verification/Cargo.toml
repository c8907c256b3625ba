[package]
name = "boson"
version = "0.1.0"
edition = "2021"
publish = false

[dependencies]
shellexpand = "*"
dirs = "*"
clap = { version = "*", features = ["derive", "env"] }
serde = { version = "*", features = ["derive"] }
serde_json = "*"
toml = "*"
keyvalues-serde = "*"
jwalk = "*"
stable-eyre = "*"
color-eyre = "*"
tracing = "*"
tracing-subscriber = { version = "*", features = ["env-filter"] }
cached-path = "*"
chrono = { version = "*", features = ["serde"] }
semver = { version = "*", features = ["serde"] }
tracing-test = "*"
