[package]
name = "m68kasm"
version = "0.1.0"
edition = "2021"
publish = false

[dependencies]
pest = "2"
typed-arena = "2"
clap = { version = "4", features = ["derive"] }
thiserror = "1"
