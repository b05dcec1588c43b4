[package]
name = "fix_engine"
version = "0.1.0"
edition = "2021"
publish = false

[dependencies]
chrono = "0.4"
quick-xml = "*"
json = "*"
ini = "1"
fs2 = "*"
memmap2 = "*"
bincode = "1"
serde = { version = "1", features = ["derive"] }
prettytable-rs = "*"
