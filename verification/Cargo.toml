[package]
name = "car_dashboard"
version = "0.1.0"
edition = "2021"
publish = false

[dependencies]
i-slint-core = "1"
image = { version = "0.25", default-features = false, features = ["png"] }
tokio = { version = "1", features = ["rt-multi-thread", "time"] }
reqwest = { version = "0.12", default-features = false, features = ["rustls-tls"] }
