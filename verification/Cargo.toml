[package]
name = "macroquad_fun"
version = "0.1.0"
edition = "2021"
publish = false

[dependencies]
anyhow = "1"
argh = "0.1"
bitflags = "1.3"
gilrs = "0.10"
heapless = "0.7"
macroquad = "0.3"
postcard = "1"
rapier2d = "0.17"
rouille = "3"
semver = "1"
serde = { version = "1", features = ["derive"] }
serde_derive = "1"
serde_json = "1"
uuid = { version = "1", features = ["v4", "serde"] }
