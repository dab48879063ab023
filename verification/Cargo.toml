[package]
name = "gear-program"
version = "0.1.0"
edition = "2021"
publish = false

[dependencies]
env_logger = "=0.9.3"
futures-util = "=0.3.34"
hex = "=0.4.3"
structopt = "=0.3.26"
substrate-bip39 = "=0.4.4"
subxt = "=0.22.0"
tokio = { version = "=1.54.1", features = ["rt-multi-thread"] }

[dev-dependencies]
frame-metadata = "=15.2.0"
scale-info = "=2.11.6"
