[package]
name = "docker_storage_proxy_registry"
version = "0.1.0"
edition = "2021"
publish = false

[dependencies]
sha2 = "*"
base16ct = { version = "*", features = ["alloc"] }
uuid = { version = "*", features = ["v4"] }
chrono = "*"
serde = { version = "*", features = ["derive"] }
serde_json = "*"
toml = "*"
