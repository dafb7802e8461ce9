[package]
name = "grammers_core"
version = "0.1.0"
edition = "2021"
publish = false

[dependencies]
num-bigint = "=0.4.8"
sha2 = "=0.10.9"
pbkdf2 = "=0.11.0"
hmac = "=0.12.1"
glass_pumpkin = "=1.9.1"
