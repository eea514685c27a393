[package]
name = "room_view"
version = "0.1.0"
edition = "2021"
publish = false

[dependencies]
screeps-api = "=0.6.0"
serde = "=1.0.118"
serde_derive = "=1.0.118"
serde_json = "=1.0.61"
ndarray = "=0.17.2"
log = "=0.4.34"
derive_more = { version = "=2.1.1", features = ["display"] }
smart-default = "=0.7.1"
