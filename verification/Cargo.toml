[package]
name = "mantle_media"
version = "0.1.0"
edition = "2021"
publish = false

[dependencies]
ureq = { version = "=3.5.1", default-features = false }
form_urlencoded = "=1.2.2"
md-5 = "=0.11.0"
aes = "=0.9.4"
cbc = "=0.2.1"
serde_json = "=1.0.154"
serde = { version = "=1.0.229", features = ["derive"] }
quick-xml = "=0.42.0"
log = { version = "=0.4.35", features = ["max_level_debug"] }
