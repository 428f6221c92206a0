[package]
name = "democratos_app"
version = "0.1.0"
edition = "2021"
publish = false

[dependencies]
subtle = "2"
hmac = "0.12"
sha2 = "0.10"
rand_core = { version = "0.6", features = ["getrandom"] }
async-trait = "0.1"
tracing = "0.1"
