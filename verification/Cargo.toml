[package]
name = "xero"
version = "0.1.0"
edition = "2021"
publish = false

[dependencies]
openssl = "=0.10.81"
rand = "=0.8.8"
chrono = { version = "=0.4.45", features = ["serde"] }
rustc-serialize = "=0.3.25"
hyper = "=0.10.16"
serde = "=1.0.229"
serde_derive = "=1.0.229"
serde_json = "=1.0.151"
xml-rs = "=0.8.29"
bigdecimal = "=0.4.11"
