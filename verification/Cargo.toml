[package]
name = "warlock_core"
version = "0.1.0"
edition = "2021"
publish = false

[dependencies]
rstar = "*"
rand = "*"
peg = "*"
bincode = "1"
serde = { version = "*", features = ["derive"] }
directories = "*"
anyhow = "*"
