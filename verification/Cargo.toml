[package]
name = "holochain_core_types"
version = "0.1.0"
edition = "2021"
publish = false

[dependencies]
chrono = { version = "0.4", default-features = false, features = ["std"] }
serde = { version = "1", features = ["derive"] }

[dev-dependencies]
regex = "1"
