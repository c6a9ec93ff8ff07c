[package]
name = "speedtest_cli"
version = "0.1.0"
edition = "2021"
publish = false

[dependencies]
clap = { version = "4", features = ["derive"] }
colored = "*"
env_logger = "*"
futures-util = "*"
indicatif = "*"
log = "*"
reqwest = { version = "*", default-features = false, features = ["stream"] }
thiserror = "*"
tokio = { version = "1", features = ["macros", "rt-multi-thread", "time"] }
