[package]
name = "rektal"
version = "0.1.0"
edition = "2021"
publish = false

[dependencies]
arrayvec = { version = "0.7", features = ["serde"] }
serde = { version = "1", features = ["derive"] }
bincode = "1"
rand = "*"
chrono = "0.4"
crossterm = "*"
ctrlc = "3"
