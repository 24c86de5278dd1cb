[package]
name = "fido2kpxc"
version = "0.1.0"
edition = "2021"
publish = false

[dependencies]
anyhow = "1"
base64 = "0.22"
chacha20poly1305 = "0.10"
ctap-hid-fido2 = "*"
getrandom = "0.3"
objc2 = "*"
objc2-app-kit = "*"
objc2-application-services = "*"
objc2-core-foundation = "*"
objc2-foundation = "*"
objc2-service-management = "*"
rpassword = "*"
serde = { version = "1", features = ["derive"] }
tempfile = "3"
toml = "*"
zeroize = "1"
