[package]
name = "sg"
version = "0.1.0"
edition = "2021"
publish = false

[dependencies]
regex = "1"
anyhow = "1"
serde = { version = "1", features = ["derive"] }
tokio = { version = "1", features = ["rt-multi-thread"] }
reqwest = { version = "0.11", features = ["json"] }
graphql_client = { version = "0.13", features = ["reqwest"] }
once_cell = "1"
mlua = { version = "0.8", features = ["lua54", "vendored"] }
