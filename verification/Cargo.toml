[package]
name = "cepheus_trader"
version = "0.1.0"
edition = "2021"
publish = false

[dependencies]
hmac = "=0.12.1"
sha2 = "=0.10.9"
language-tags = "=0.3.2"
thiserror = "=2.0.21"
getrandom = "0.3"
