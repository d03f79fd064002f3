[package]
name = "deck_core"
version = "0.1.0"
edition = "2021"
publish = false

[dependencies]
axum = "=0.8.9"
dotenv = "=0.15.0"
elgato-streamdeck = { version = "=0.10.2", features = ["async"] }
image = { version = "=0.25.10", default-features = false, features = ["png", "jpeg"] }
magick_rust = "=2.1.1"
serde_json = "=1.0.154"
tokio = { version = "=1.54.1", features = ["full"] }
tracing = "=0.1.44"
tracing-subscriber = "=0.3.23"
