[package]
name = "httpbuild"
version = "0.1.0"
edition = "2021"
publish = false

[dependencies]
reqwest = { version = "=0.13.5", default-features = false, features = ["blocking", "multipart", "form"] }
mlua = { version = "=0.12.2", features = ["lua54", "vendored"] }
