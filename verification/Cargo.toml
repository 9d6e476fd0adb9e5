[package]
name = "vasak-keyring"
version = "0.3.0"
edition = "2021"
publish = false

[dependencies]
aes = "0.8"
aes-gcm = "0.10"
argon2 = "0.5"
cbc = { version = "0.1", features = ["alloc"] }
dirs = "6"
futures-util = "0.3"
hkdf = "0.12"
libc = "0.2"
num-bigint = "0.4"
rand = "0.8"
serde = { version = "1", features = ["derive"] }
serde_json = "1"
sha2 = "0.10"
tokio = { version = "1", features = ["full"] }
zbus = { version = "5", default-features = false, features = ["tokio"] }
zeroize = "1"
