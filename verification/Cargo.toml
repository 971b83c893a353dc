[package]
name = "agredadb"
version = "0.1.0"
edition = "2021"
publish = false

[dependencies]
bcrypt = "0.15"
jsonwebtoken = "9"
uuid = { version = "1", features = ["v4"] }
ring = "0.17"
bitpacking = "0.9"
serde = { version = "1", features = ["derive"] }
serde_json = { version = "1", features = ["preserve_order"] }
tokio = { version = "1", features = ["full"] }
wide = "0.7"
ordered-float = "4"
ahash = "0.8"
rand = "0.8"
parking_lot = "0.12"
clap = { version = "4", features = ["derive"] }
env_logger = "0.11"
log = "0.4"
num_cpus = "1"
flume = "0.11"
arrow = { version = "53", default-features = false, features = ["ipc"] }
sqlparser = "0.51"
io-uring = "0.6"
libc = "0.2"
aligned-vec = "0.5"
rkyv = { version = "0.7", features = ["validation"] }
