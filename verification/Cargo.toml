[package]
name = "providence"
version = "0.1.0"
edition = "2021"
publish = false

[dependencies]
anyhow = "*"
async-std = "*"
bincode = "1"
futures = "0.3"
futures-lite = "*"
if-addrs = "*"
log = "*"
pawawwewism = "*"
serde = { version = "1", features = ["derive"] }
tracing = "*"
uwuhi = "*"
uwuhi-async = "*"
