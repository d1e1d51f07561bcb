[package]
name = "industrial-io"
version = "0.6.0"
edition = "2021"
publish = false

[dependencies]
nix = { version = "0.29", default-features = false }
thiserror = "1.0"
clap = { version = "4", features = ["derive"] }
