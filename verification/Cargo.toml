[package]
name = "dht11"
version = "0.1.0"
edition = "2021"
publish = false

[dependencies]
esp-hal = { version = "=1.0.0", features = ["esp32c3", "unstable"] }
