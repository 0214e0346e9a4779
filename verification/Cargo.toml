[package]
name = "pozor_dom"
version = "0.1.0"
edition = "2021"
publish = false

[dependencies]
chrono = "=0.4.45"
tokio = { version = "=1.53.2", features = ["full"] }
tokio-tungstenite = "=0.30.0"
futures-util = "=0.3.34"
rusqlite = { version = "=0.40.2", features = ["bundled"] }
warp = { version = "=0.4.3", features = ["server"] }
rumqttc = "=0.25.1"
reqwest = { version = "=0.13.5", default-features = false }
rand = "=0.8.8"
crossterm = "=0.29.0"
ratatui = "=0.30.2"
bytes = "=1.12.1"
