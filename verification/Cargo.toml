[package]
name = "ooda"
version = "0.1.0"
edition = "2021"
publish = false

[dependencies]
heck = "0.5"
libc = "0.2"
proc-macro2 = "1"
quote = "1"
reqwest = { version = "0.12", default-features = false, features = ["blocking", "json", "rustls-tls"] }
serde = { version = "1", features = ["derive"] }
serde_json = { version = "1", features = ["preserve_order"] }
syn = { version = "2", features = ["full"] }
thiserror = "2"
