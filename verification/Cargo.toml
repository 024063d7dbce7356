[package]
name = "fapt"
version = "0.1.0"
edition = "2021"
publish = false

[dependencies]
anyhow = "1"
insideout = "*"
serde_json = "1"
url = "2"
reqwest = { version = "*", default-features = false }

[dev-dependencies]
nom = "4"
