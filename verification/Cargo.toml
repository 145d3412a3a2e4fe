[package]
name = "save_locator"
version = "0.1.0"
edition = "2021"
publish = false

[dependencies]
glob = "0.3"
dirs-next = "2"
json5 = "0.4"
serde = { version = "1", features = ["derive"] }
