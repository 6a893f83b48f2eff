[package]
name = "indexer"
version = "0.1.0"
edition = "2021"
publish = false

[dependencies]
ethers = { version = "2", features = ["abigen", "rustls", "ws"] }
eyre = "0.6"
futures = "0.3"
tokio = { version = "1", features = ["macros", "rt-multi-thread", "time", "sync"] }
dotenv = "0.15"
