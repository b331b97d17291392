[package]
name = "spotifytops"
version = "0.1.0"
edition = "2021"
publish = false

[dependencies]
percent-encoding = "2"
serde_urlencoded = "0.7"
serde = { version = "1", features = ["derive"] }
serde_json = "1"
toml = "0.5"
chrono = { version = "0.4", features = ["serde"] }
uuid = { version = "0.8", features = ["v4"] }
futures = "0.1"
hyper = "0.12"
hyper-tls = "0.3"
tokio = "0.1"
handlebars = "2"
simple-error = "0.2"
lazy_static = "1"
dirs = "2"
mime = "0.3"
