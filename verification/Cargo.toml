[package]
name = "glowpub"
version = "0.1.0"
edition = "2021"
publish = false

[dependencies]
ammonia = "=4.2.1"
chrono = { version = "*", default-features = false, features = ["std", "clock"] }
html5ever = "=0.39.0"
image = { version = "=0.25.10", default-features = false, features = ["png", "jpeg", "gif", "bmp", "webp"] }
lol_html = "=3.0.1"
markup5ever = "=0.39.0"
markup5ever_rcdom = "=0.39.0"
reqwest = { version = "*", default-features = false, features = ["blocking", "json"] }
serde = { version = "*", features = ["derive"] }
serde_json = "*"
sha2 = "=0.11.0"
xml5ever = "=0.39.0"
