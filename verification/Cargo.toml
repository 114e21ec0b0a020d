[package]
name = "edr"
version = "0.1.0"
edition = "2021"
publish = false

[dependencies]
rusqlite = { version = "*", features = ["bundled"] }
sha2 = "*"
hex = "*"
tokio = { version = "*", features = ["macros", "rt-multi-thread", "signal", "net"] }
reqwest = { version = "*", default-features = false, features = ["json"] }
serde_json = "*"
clap = { version = "*", features = ["derive"] }
env_logger = "*"
log = "*"
anyhow = "*"
aya = "*"
libc = "*"
