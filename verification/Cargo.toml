[package]
name = "cait_sith"
version = "0.1.0"
edition = "2021"
publish = false

[dependencies]
k256 = { version = "0.13", default-features = false, features = ["arithmetic", "std"] }
magikitten = "*"
ck-meow = "*"
rand_core = { version = "0.6", features = ["getrandom"] }
subtle = "2"
