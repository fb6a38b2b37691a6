[package]
name = "doubletrace"
version = "0.1.0"
edition = "2021"
publish = false

[dependencies]
rand = "*"
petgraph = "*"
ipnet = "*"
log = "*"
env_logger = "*"
pbr = "*"
structopt = "*"
sudo = "*"
thiserror = "*"
tokio = { version = "*", features = ["full"] }
pnet = "*"
