[package]
name = "voting_machine"
version = "0.1.0"
edition = "2021"
publish = false

[dependencies]
sha2 = "0.10"
rusqlite = { version = "*", features = ["bundled"] }
actix-web = "4"
actix-cors = "*"
serde = { version = "1", features = ["derive"] }
serde_json = "1"
