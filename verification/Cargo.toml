[package]
name = "barcode_keyboard"
version = "0.1.0"
edition = "2021"
publish = false

[dependencies]
qrcode = { version = "0.14", default-features = false }
serde = { version = "1", features = ["derive"] }
serde_json = "1"
dirs = "5"
sys-locale = "0.3"
tokio = { version = "1", features = ["rt-multi-thread", "macros", "io-util", "time"] }
tokio-serial = { version = "5", default-features = false }
n0-future = "*"
