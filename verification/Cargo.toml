[package]
name = "cyfs_meta"
version = "0.1.0"
edition = "2021"
publish = false

[dependencies]
async-trait = "0.1"
fuser = { version = "0.15", default-features = false }
libc = "0.2"
log = "0.4"
rusqlite = { version = "0.32", features = ["bundled"] }
serde = { version = "1", features = ["derive"] }
serde_json = "1"
tokio = { version = "1", features = ["fs", "io-util", "macros", "rt-multi-thread", "sync", "time"] }

[dev-dependencies]
tempfile = "3"
