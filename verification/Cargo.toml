[package]
name = "generic_daw_core"
version = "0.1.0"
edition = "2021"
publish = false

[dependencies]
crc32c = "=0.6.9"
midly = { version = "=0.5.3", default-features = false, features = ["alloc"] }
rtrb = "0.3"
serde = { version = "1", features = ["derive"] }
toml = "0.8"
