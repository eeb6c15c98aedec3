[package]
name = "queen_shell"
version = "0.1.0"
edition = "2021"
publish = false

[dependencies]
indexmap = "*"
serde = { version = "*", features = ["derive"] }
dirs = "*"
glob = "*"
futures-lite = "*"
spin = "*"
