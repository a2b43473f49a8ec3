[package]
name = "reason"
version = "0.1.0"
edition = "2021"
publish = false

[dependencies]
regex = "*"
serde = { version = "*", features = ["derive"] }
serde_yaml = "*"
prettytable-rs = "*"
rustyline = "*"
confy = "*"
