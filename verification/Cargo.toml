[package]
name = "v5sim"
version = "0.1.0"
edition = "2021"
publish = false

[dependencies]
anyhow = "=1.0.104"
png = "=0.18.1"
rusttype = "=0.9.3"
serde_json = "=1.0.151"
vexide-simulator-protocol = "=0.2.1"
wasmtime = "=48.0.5"
