[package]
name = "tokio-takconnect"
version = "0.1.0"
edition = "2021"
publish = false

[dependencies]
takparse = "=0.5.5"
rand = "=0.8.8"
futures = "=0.3.34"
log = "=0.4.35"
parking_lot = "=0.12.5"
tokio = { version = "=1.54.1", features = ["macros", "rt", "sync", "time"] }
tokio-tungstenite = { version = "=0.30.0", features = ["rustls-tls-webpki-roots"] }
