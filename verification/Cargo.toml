[package]
name = "osa2cal"
version = "0.1.0"
edition = "2021"
publish = false

[dependencies]
anyhow = "1"
chrono = "0.4"
clap = { version = "4", features = ["derive"] }
colored = "*"
dirs = "*"
hex = "0.4"
icalendar = "*"
indicatif = "*"
osars = "*"
reqwest = "*"
serde = { version = "1", features = ["derive"] }
sha1 = "*"
tokio = { version = "1", features = ["macros", "rt-multi-thread"] }
toml = "*"
url = "2"
