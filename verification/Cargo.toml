[package]
name = "rust_sc2"
version = "0.1.0"
edition = "2021"
publish = false

[dependencies]
protobuf = "=1.7.5"
rand = "=0.8.8"
sc2-proto = "=0.1.8"
tungstenite = "=0.30.0"
url = "=2.5.8"
num-traits = "=0.2.19"
