[package]
name = "morpheus_updater"
version = "0.1.0"
edition = "2021"
publish = false

[dependencies]
dirs = "*"
eframe = { version = "*", default-features = false, features = ["glow", "x11", "default_fonts"] }
futures-util = "*"
image = { version = "*", default-features = false, features = ["ico"] }
reqwest = { version = "*", default-features = false, features = ["stream", "rustls-tls"] }
tokio = { version = "*", features = ["rt-multi-thread", "fs", "time", "io-util"] }
zip = { version = "*", default-features = false, features = ["deflate"] }
