[package]
name = "krct"
version = "0.1.0"
edition = "2021"
publish = false

[dependencies]
csv = "1"
paw = "1"
serde = { version = "1", features = ["derive"] }
structopt = { version = "0.3", features = ["paw"] }
thiserror = "1"
