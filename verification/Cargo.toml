[package]
name = "lazysql"
version = "0.1.0"
edition = "2021"
publish = false

[dependencies]
aes-gcm = "=0.10.3"
argon2 = "=0.5.3"
bincode = "=1.3.3"
getrandom = "=0.2.17"
regex = "=1.13.1"
zeroize = "=1.9.1"
anyhow = "1"
log = "0.4"
env_logger = "0.11"
serde = { version = "1", features = ["derive"] }
serde_json = "1"
parking_lot = "0.12"
once_cell = "1"
ureq = { version = "=2.12.1", default-features = false, features = ["json"] }
libc = "0.2"
rusqlite = { version = "=0.31.0", features = ["bundled", "functions"] }
