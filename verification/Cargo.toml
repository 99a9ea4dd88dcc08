[package]
name = "ethexec"
version = "0.1.0"
edition = "2021"
publish = false

[dependencies]
anyhow = "*"
clap = { version = "*", features = ["derive", "env"] }
const-hex = "*"
crossbeam-channel = "*"
ethereum-types = "*"
ethers-core = "*"
nonempty = "*"
tokio = { version = "*", features = ["sync", "rt"] }
tracing = "*"
