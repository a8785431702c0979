[package]
name = "hn_watcher"
version = "0.1.0"
edition = "2021"
publish = false

[dependencies]
chrono = "*"
serde_json = "*"
ctrlc = "*"
reqwest = { version = "*", default-features = false, features = ["blocking"] }
