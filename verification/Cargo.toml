[package]
name = "websocket_handshake"
version = "0.1.0"
edition = "2021"
publish = false

[dependencies]
sha1 = "=0.5.0"
rustc-serialize = "=0.3.25"
http-muncher = "=0.2.5"
mio = "=0.4.4"
