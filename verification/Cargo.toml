[package]
name = "last_rs"
version = "0.1.0"
edition = "2021"
publish = false

[dependencies]
clap = { version = "4", features = ["derive"] }
thiserror = "1"
time = { version = "0.3", features = ["formatting", "local-offset", "macros"] }
utmp-rs = "*"
