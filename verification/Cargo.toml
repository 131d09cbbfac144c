[package]
name = "fuse_mutation"
version = "0.1.0"
edition = "2021"
publish = false

[dependencies]
jsonb = "0.3"
chrono = { version = "0.4", default-features = false, features = ["std", "serde"] }
serde = { version = "1", features = ["derive"] }
typetag = "0.2"
async-trait = "0.1"
log = "0.4"
