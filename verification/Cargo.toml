[package]
name = "smrec"
version = "0.2.1"
edition = "2021"
publish = false

[dependencies]
anyhow = "1"
camino = "1"
chrono = { version = "0.4", default-features = false, features = ["clock"] }
clap = { version = "4", features = ["derive"] }
cpal = "0.15"
crossbeam = "0.8"
ctrlc = "3"
glob-match = "0.2"
home = "0.5"
hound = "3.5"
midir = "0.9"
rosc = "0.10"
serde = { version = "1", features = ["derive"] }
toml = "0.8"

[dev-dependencies]
nom = "7"
