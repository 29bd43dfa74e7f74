[package]
name = "dlms_cosem"
version = "0.1.0"
edition = "2021"
publish = false

[dependencies]
aes = "0.8"
aes-gcm = "0.10"
aes-kw = "0.2"
ghash = "0.5"
heapless = "0.8"
subtle = "2"
zeroize = "1"
