[package]
name = "network_time_pester"
version = "0.1.0"
edition = "2021"
publish = false

[dependencies]
anyhow = "=1.0.104"
clap = { version = "=4.6.7", features = ["derive"] }
hex = "=0.4.3"
humantime = "=2.4.0"
ntp-proto = { version = "=1.1.3", features = ["__internal-api"] }
rustls = "=0.22.4"
rustls-pemfile = "=2.2.0"
webpki-roots = "=0.26.11"
