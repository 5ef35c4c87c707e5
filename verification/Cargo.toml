[package]
name = "vault64"
version = "3.0.0"
edition = "2021"
publish = false

[dependencies]
crossbeam-channel = "0.5"
directories = "6"
eframe = { version = "0.29", default-features = false, features = ["default_fonts", "glow", "x11"] }
reqwest = { version = "0.12", default-features = false, features = ["blocking", "json", "default-tls"] }
serde = { version = "1", features = ["derive"] }
serde_json = "1"
sevenz-rust = { version = "0.6", default-features = false }
zip = { version = "0.6", default-features = false, features = ["deflate"] }
