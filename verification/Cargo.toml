[package]
name = "vaultvisor"
version = "0.1.0"
edition = "2021"
publish = false

[dependencies]
hex = "*"
sp-core-hashing = "*"
jsonrpsee = { version = "*", features = ["ws-client"] }
reqwest = { version = "*", default-features = false }
tokio = { version = "*", features = ["macros", "rt-multi-thread", "time"] }
nix = { version = "*", features = ["signal", "process"] }
clap = { version = "*", features = ["derive"] }
log = "*"
env_logger = "*"
futures = "*"
signal-hook = "*"
signal-hook-tokio = { version = "*", features = ["futures-v0_3"] }

[dev-dependencies]
parity-scale-codec = "*"
