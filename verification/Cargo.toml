[package]
name = "near_light_client_types"
version = "0.1.0"
edition = "2021"
publish = false

[dependencies]
borsh = { version = "1", default-features = false, features = ["std"] }
ed25519-dalek = { version = "2", default-features = false, features = ["std"] }
sha2 = { version = "0.10", default-features = false, features = ["std"] }
serde = { version = "1", features = ["derive"] }
serde_with = { version = "3", features = ["base64"] }
near-primitives = "*"
near-crypto = "*"
