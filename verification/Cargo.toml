[package]
name = "sp1_core"
version = "0.1.0"
edition = "2021"
publish = false

[dependencies]
sysinfo = "*"
serde = { version = "*", features = ["derive"] }
serde_json = "*"
anyhow = "*"
reqwest = { version = "*", default-features = false, features = ["json"] }
target-lexicon = "*"
p3-air = "*"
