[package]
name = "cargo_ohos"
version = "0.3.2"
edition = "2021"
publish = false

[dependencies]
clap = { version = "4", features = ["derive"] }
dunce = "1"
flate2 = "1"
fs4 = "*"
indicatif = "0.17"
serde = { version = "1", features = ["derive"] }
serde_json = "1"
sha2 = "0.10"
tar = "0.4"
ureq = "3"
zip = { version = "2", default-features = false, features = ["deflate"] }
