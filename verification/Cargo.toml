[package]
name = "hexview_core"
version = "0.1.0"
edition = "2021"
publish = false

[dependencies]
base64 = "*"
serde = "1"
serde_derive = "1"
