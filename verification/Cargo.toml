[package]
name = "roller"
version = "0.1.0"
edition = "2021"
publish = false

[dependencies]
itertools = "=0.10.5"
indexmap = "=1.9.3"
rustc-hash = "=1.1.0"
rand = "=0.8.8"
uuid = { version = "=0.8.2", features = ["v4"] }
serde = { version = "=1.0.229", features = ["derive"] }
toml = "=0.5.11"
bincode = "=1.3.3"
async-std = "=1.13.2"
futures = "=0.3.34"
palette = "=0.5.0"
ordered-float = "=2.10.1"
clap = { version = "=3.2.25", features = ["derive"] }
prost = "=0.14.4"
warp = { version = "=0.4.3", features = ["server", "websocket"] }
tokio = { version = "=1.54.1", features = ["rt-multi-thread"] }
thiserror = "=2.0.21"
coremidi = "=0.9.2"
