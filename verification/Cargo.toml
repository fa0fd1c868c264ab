[package]
name = "rustdoc_migrate"
version = "0.1.0"
edition = "2021"
publish = false

[dependencies]
anstream = "*"
anstyle = "*"
anyhow = "*"
serde_json = { version = "*", features = ["preserve_order"] }
