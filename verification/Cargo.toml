[package]
name = "gba_convert"
version = "0.1.0"
edition = "2021"
publish = false

[dependencies]
compress = "*"
image = { version = "0.24", default-features = false, features = ["png", "jpeg", "tga"] }
proc-macro2 = "1"
quote = "1"
serde = { version = "1", features = ["derive"] }
syn = "2"

[dev-dependencies]
toml = "*"
