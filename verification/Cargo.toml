[package]
name = "zks"
version = "0.1.0"
edition = "2021"
publish = false

[dependencies]
ethers-core = { version = "=2.0.14", default-features = false }
hex = "=0.4.3"
itertools = "0.13"
serde = { version = "1", features = ["derive"] }
toml = "0.8"
dirs = "5"
clap = { version = "4", features = ["derive"] }
colored = "2"
dialoguer = { version = "0.11", default-features = false }
eyre = "0.6"
spinoff = "0.8"
tokio = { version = "1", features = ["macros", "rt-multi-thread"] }
chrono = { version = "0.4", default-features = false, features = ["clock", "std"] }
sqlx = { version = "0.8", default-features = false, features = ["postgres", "runtime-tokio", "chrono"] }
tracing = "0.1"
tracing-subscriber = { version = "0.3", default-features = false, features = ["fmt", "std"] }
