[package]
name = "save_sync"
version = "0.1.0"
edition = "2021"
publish = false

[dependencies]
sha256 = { version = "*", default-features = false }
uuid = { version = "*", features = ["v4"] }
fs_extra = "*"
glob = "*"
serde = { version = "*", features = ["derive"] }
serde_json = "*"
rocket = { version = "0.5", features = ["json"] }
once_cell = "*"
crossbeam-channel = "*"
