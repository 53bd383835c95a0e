[package]
name = "workshop_walker"
version = "0.1.0"
edition = "2021"
publish = false

[dependencies]
lingua = { version = "*", default-features = false, features = ["english", "russian", "chinese", "japanese", "korean"] }
bbscope = "*"
serde = "*"
serde_json = "*"
