[package]
name = "awspm"
version = "0.1.1"
edition = "2021"
publish = false

[dependencies]
anyhow = "1"
chrono = "0.4"
clap = { version = "4", features = ["derive"] }
clap_complete = "4"
configparser = "3"
console = "*"
dialoguer = "*"
dirs = "*"
hex = "0.4"
regex = "1"
serde = { version = "1", features = ["derive"] }
serde_json = "1"
serde_yaml = "0.9"
sha1 = "0.10"
skim = "*"
tabled = "*"
thiserror = "*"
tracing = "0.1"
tracing-subscriber = "0.3"
