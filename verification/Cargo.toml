[package]
name = "net_common"
version = "0.1.0"
edition = "2021"
publish = false

[dependencies]
crc = "=3.4.0"
png = "=0.18.1"
sntpc = { version = "=0.11.0", features = ["std", "sync"] }
