[package]
name = "smtp_honeypot"
version = "0.1.0"
edition = "2021"
publish = false

[dependencies]
anyhow = "1"
chrono = "0.4"
daemonize = "0.5"
libc = "0.2"
rustls = "0.21"
rustls-pemfile = "1"
structopt = "0.3"
tokio = { version = "1", features = ["full"] }
tokio-rustls = "0.24"
users = "0.11"
