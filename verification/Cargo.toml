[package]
name = "auction"
version = "0.1.0"
edition = "2021"
publish = false

[dependencies]
sp-runtime = "=42.0.0"
orml-traits = "=1.5.0"
frame-support = "=41.0.2"
frame-system = "41"
parity-scale-codec = { version = "=3.7.5", features = ["derive"] }
log = "=0.4.34"
structopt = "=0.3.26"
