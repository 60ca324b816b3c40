[package]
name = "scrapeprice"
version = "0.1.0"
edition = "2021"
publish = false

[dependencies]
scraper = "=0.27.0"
rex-regex = "=0.1.4"
hyper = { version = "=0.14.32", features = ["client", "http1", "tcp"] }
hyper-rustls = "=0.24.2"
tokio = { version = "1", features = ["rt", "macros", "time"] }
log = "*"
env_logger = "*"
