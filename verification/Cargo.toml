[package]
name = "legeo"
version = "0.1.0"
edition = "2021"
publish = false

[dependencies]
actix = "0.7"
futures = "0.1"
log = "0.4"
rusqlite = { version = "0.16", features = ["bundled"] }
structopt = "0.2"
url = "1.7"
