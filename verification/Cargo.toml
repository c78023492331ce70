[package]
name = "ratty"
version = "0.1.0"
edition = "2021"
publish = false

[dependencies]
anyhow = "=1.0.104"
arboard = { version = "=3.7.0", default-features = false }
base64 = "=0.22.1"
clap = { version = "=4.6.7", features = ["derive"] }
etcetera = "=0.11.0"
image = { version = "=0.25.10", default-features = false, features = ["png", "ico"] }
rust-embed = "=8.13.0"
serde = { version = "=1.0.229", features = ["derive"] }
stl_io = "=0.11.0"
tobj = "=4.0.5"
toml = "=1.1.8"
vt100 = "=0.16.2"
