[package]
name = "certless_aka"
version = "0.1.0"
edition = "2021"
publish = false

[dependencies]
k256 = { version = "0.13", default-features = false, features = ["arithmetic", "std"] }
num-bigint = "0.4"
rand = "0.8"
sha2 = "0.10"
