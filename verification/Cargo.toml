[package]
name = "passgen"
version = "0.1.0"
edition = "2021"
publish = false

[dependencies]
arboard = { version = "3", default-features = false }
clap = { version = "4", features = ["derive"] }
nix = { version = "0.29", features = ["process"] }
nonzero_ext = "0.3"
rand = "0.8"
snafu = "0.8"
tracing = "0.1"
tracing-subscriber = "0.3"
