[package]
name = "jelly"
version = "0.1.0"
edition = "2021"
publish = false

[dependencies]
chrono = "0.4"
clap = { version = "4", features = ["derive"] }
coap-lite = "*"
coap-message = "*"
minicbor = { version = "*", features = ["alloc"] }
cbor-edn = "*"
url = "2"
slipmux = "*"
serialport = { version = "4", default-features = false }
crossterm = "*"
ratatui = "*"
rand = "0.9"
pnet_packet = "*"
tun-rs = "*"
eyre = "*"
