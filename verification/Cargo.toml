[package]
name = "iroh-ipc-transport"
version = "0.1.0"
edition = "2021"
publish = false

[dependencies]
iroh = { version = "*", features = ["unstable-custom-transports"] }
iroh-base = "*"
n0-watcher = "*"
noq-udp = "*"
socket2 = "*"
tokio = { version = "*", features = ["net", "rt"] }
