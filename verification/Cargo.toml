[package]
name = "agent_protocols"
version = "0.1.0"
edition = "2021"
publish = false

[dependencies]
base64 = "0.22"
ed25519-dalek = "2"
rand = "0.9"
serde = { version = "1", features = ["derive"] }
serde_jcs = "0.1"
serde_json = "1"
sha2 = "0.10"
sha3 = "0.10"
url = "2"
thiserror = "2"
jsonschema = { version = "*", default-features = false }
reqwest = { version = "0.12", default-features = false, features = ["json"] }
