[package]
name = "waterfall"
version = "0.1.0"
edition = "2021"
publish = false

[dependencies]
clap = { version = "4", features = ["derive"] }
curl = "0.4"
libc = "0.2"
serde_json = "1"
socket2 = "0.5"
winapi = { version = "0.3", features = ["winsock2", "ws2def", "ws2ipdef", "ws2tcpip"] }
