[package]
name = "zenoh_cdn"
version = "0.1.0"
edition = "2021"
publish = false

[dependencies]
sha2 = "0.9"
serde = { version = "1", features = ["derive"] }
serde_json = "1"
async-std = "1"
futures = "0.3"
log = "0.4"
memmap2 = "0.5"
checksums = "0.9"
zenoh = "=0.5.0-beta.9"
zenoh-util = "=0.5.0-beta.9"
