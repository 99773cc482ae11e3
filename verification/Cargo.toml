[package]
name = "jj_work"
version = "0.1.0"
edition = "2021"
publish = false

[dependencies]
clap = { version = "=4.6.7", features = ["derive"] }
clap_complete = { version = "=4.6.11", features = ["unstable-dynamic"] }
miette = "=7.6.0"
toml = "=1.1.8"
xshell = "=0.2.7"
