[package]
name = "mistralrs_sequence"
version = "0.1.0"
edition = "2021"
publish = false

[dependencies]
galil-seiferas = "*"
tokio = { version = "1", default-features = false, features = ["sync"] }
candle-core = "*"
image = { version = "*", default-features = false, features = ["png", "jpeg"] }
llguidance = { version = "*", default-features = false }
url = "2"
data-url = "*"
reqwest = { version = "*", features = ["blocking"] }
pyo3 = "*"
anyhow = "1"
serde_json = "1"
