[package]
name = "daleks"
version = "0.1.0"
edition = "2021"
publish = false

[dependencies]
argparse = "0.2"
rand = "0.8"
serde = { version = "1", features = ["derive"] }
serde_json = "1"
termion = "1.5"
xdg = "2"
