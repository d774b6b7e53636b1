[package]
name = "minau"
version = "0.1.0"
edition = "2021"
publish = false

[dependencies]
async-channel = "=2.5.0"
async-compat = "=0.2.6"
bytes = "=1.12.1"
clap = { version = "=4.6.7", features = ["derive"] }
cpal = "0.15"
crossterm = "=0.28.1"
http-body-util = "=0.1.5"
humantime = "=2.4.0"
hyper = { version = "=1.12.0", features = ["client", "http1"] }
hyper-tls = "=0.6.0"
hyper-util = { version = "=0.1.21", features = ["client-legacy", "http1", "tokio"] }
image = { version = "=0.25.10", default-features = false, features = ["jpeg", "png"] }
indicatif = "=0.17.11"
infer = "=0.22.0"
lofty = "=0.25.4"
parking_lot = "=0.12.5"
rubato = "=0.16.2"
smol = "=2.0.2"
symphonia = { version = "=0.5.5", features = ["all"] }
unicode-width = "=0.2.2"
url = "=2.5.8"
