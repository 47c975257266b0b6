[package]
name = "matter_example"
version = "0.1.0"
edition = "2021"
publish = false

[dependencies]
anyhow = "=1.0.104"
async-io = "2"
crossterm = "0.28"
env_logger = "0.11"
flume = "=0.12.0"
if-addrs = "0.13"
log = "0.4"
matc = "=0.1.3"
mdns-sd = "=0.21.7"
rand = "0.8"
ratatui = "0.29"
socket2 = "0.5"
tokio = { version = "1", features = ["full"] }
