[package]
name = "rshtml_core"
version = "0.1.0"
edition = "2021"
publish = false

[dependencies]
anyhow = "1"
pest = "2"
proc-macro2 = { version = "1", default-features = false }
quote = { version = "1", default-features = false }
