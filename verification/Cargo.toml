[package]
name = "lobbytally"
version = "0.1.0"
edition = "2021"
publish = false

[dependencies]
sha2 = "=0.10.9"
url = "=2.5.8"
axum = { version = "=0.8.9", default-features = false }
serde = { version = "=1.0.229", features = ["derive"] }
serde_json = "=1.0.154"
time = { version = "0.3", features = ["macros", "formatting", "parsing"] }
