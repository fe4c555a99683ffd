[package]
name = "az"
version = "0.1.0"
edition = "2021"
publish = false

[dependencies]
anyhow = "1"
argon2 = "0.5"
hex = "0.4"
rand = "0.8"
rpassword = "7"
rusqlite = { version = "0.31", features = ["bundled-sqlcipher"] }
serde = { version = "1", features = ["derive"] }
serde_json = "1"
thiserror = "2"
time = { version = "0.3", features = ["formatting"] }
ureq = { version = "2", features = ["json"] }
uuid = { version = "1", features = ["v4"] }
