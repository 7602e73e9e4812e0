[package]
name = "massa_tools"
version = "0.1.0"
edition = "2021"
publish = false

[dependencies]
clap = { version = "4", features = ["derive"] }
flate2 = "1.0"
glob = "0.3"
tar = "0.4"
thiserror = "1"
ureq = "2"
