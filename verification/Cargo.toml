[package]
name = "dewduct"
version = "0.1.0"
edition = "2021"
publish = false

[dependencies]
anyhow = "=1.0.104"
futures = "=0.3.34"
gtk4 = { version = "=0.7.3", features = ["v4_10"] }
html-escape = "=0.2.15"
humantime = "=2.4.0"
invidious = { version = "=0.7.8", features = ["isahc_async"] }
isahc = "=1.8.3"
lazy_static = "=1.5.1"
libadwaita = { version = "=0.5.3", features = ["v1_4"] }
once_cell = "=1.21.4"
serde = { version = "=1.0.229", features = ["derive"] }
serde_json = "=1.0.154"
thiserror = "=1.0.69"
tokio = { version = "=1.54.1", features = ["rt-multi-thread", "macros"] }
urlencoding = "=2.1.3"
