[package]
name = "syncterm"
version = "0.1.0"
edition = "2021"
publish = false

[dependencies]
chan = "0.1"
chrono = "0.4"
serde = { version = "1.0", features = ["derive"] }
serde_derive = "1.0"
serde_json = "1.0"
termion = "1.5"
tui = "0.2"
