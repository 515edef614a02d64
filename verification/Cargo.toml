[package]
name = "brb_dt_tree"
version = "0.1.0"
edition = "2021"
publish = false

[dependencies]
crdt_tree = "=0.0.16"
brb = "=1.0.10"
brb_membership = "=1.0.2"
serde = { version = "=1.0.229", features = ["derive"] }
thiserror = "=1.0.69"
