[package]
name = "atlas_packer"
version = "0.1.0"
edition = "2021"
publish = false

[dependencies]
anyhow = "*"
png = "*"
serde = { version = "*", features = ["derive"] }
serde_json = "*"
serde_yaml = "*"
zip = "*"
