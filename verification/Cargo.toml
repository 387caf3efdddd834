[package]
name = "moraya_core"
version = "0.1.0"
edition = "2021"
publish = false

[dependencies]
hmac = "*"
sha1 = "*"
sha2 = "*"
hex = "*"
base64 = "*"
libc = "*"
dirs = "*"
serde = { version = "*", features = ["derive"] }
serde_json = "*"
zip = { version = "*", default-features = false, features = ["deflate"] }
