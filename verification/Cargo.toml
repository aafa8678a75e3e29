[package]
name = "powlib"
version = "0.1.0"
edition = "2021"
publish = false

[dependencies]
base64 = "*"
hmac = "*"
json = "*"
libc = "*"
once_cell = "*"
rand = "*"
sha2 = "*"
