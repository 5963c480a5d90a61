[package]
name = "rebar"
version = "0.5.0"
edition = "2021"
publish = false

[dependencies]
async-trait = "=0.1.92"
axum = "=0.8.9"
compio-buf = "=0.8.3"
compio-driver = "=0.12.5"
compio-io = "=0.10.1"
compio-tls = { version = "=0.10.0", features = ["rustls"] }
crossbeam-channel = "=0.5.17"
crossterm = "=0.29.0"
futures = "=0.3.34"
local-sync = "=0.1.1"
monoio = "=0.2.4"
rand = "=0.9.5"
ratatui = "=0.29.0"
rmp-serde = "=1.3.1"
rmpv = "=1.3.1"
rustls = "=0.23.46"
serde = { version = "=1.0.229", features = ["derive"] }
sha2 = "=0.10.9"
socket2 = "=0.6.5"
thiserror = "=2.0.21"
tokio = { version = "=1.54.1", features = ["full"] }
tracing = "=0.1.44"
tracing-subscriber = "=0.3.23"
uuid = { version = "=1.29.0", features = ["v4"] }
