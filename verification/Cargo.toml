[package]
name = "dexwatch"
version = "0.1.0"
edition = "2021"
publish = false

[dependencies]
ethers = { version = "2", default-features = false, features = ["ws", "rustls", "etherscan"] }
tokio = { version = "1", features = ["macros", "rt-multi-thread"] }
