[package]
name = "ecc"
version = "0.1.0"
edition = "2021"
publish = false

[dependencies]
hex = "0.4"
hmac = "0.12"
k256 = { version = "0.13", default-features = false, features = ["arithmetic"] }
num-bigint = "0.4"
num-traits = "0.2"
rand_core = { version = "0.6", features = ["getrandom"] }
sha2 = "0.10"
thiserror = "1"
