[package]
name = "six_degrees"
version = "0.1.0"
edition = "2021"
publish = false

[dependencies]
md5 = "0.7"
regex = "1"
url = "2"
serde = "1"
serde_derive = "1"
serde_json = "1"
tokio = { version = "1", features = ["full"] }
hyper = { version = "0.14", features = ["server", "http1", "tcp", "runtime"] }
reqwest = { version = "0.11", default-features = false, features = ["blocking", "gzip"] }
sysinfo = "0.29"
clap = { version = "4", features = ["derive"] }
home = "0.5"
log = "0.4"
env_logger = "0.10"
lazy_static = "1"
