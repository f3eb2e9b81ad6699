[package]
name = "siodb"
version = "0.1.0"
edition = "2021"
publish = false

[dependencies]
bufstream = "0.1"
byteorder = "1"
chrono = { version = "0.4", default-features = false, features = ["std"] }
native-tls = "0.2"
openssl = "0.10"
protobuf = "2"
url = "2"
