[package]
name = "riddler"
version = "0.1.0"
edition = "2021"
publish = false

[dependencies]
chrono = "=0.4.45"
colored = "=3.1.1"
dialoguer = "=0.12.0"
dotenv = "=0.15.0"
indicatif = "=0.18.6"
rig-core = { version = "=0.43.0", features = ["reqwest"] }
tokio = { version = "=1.53.2", features = ["macros", "rt-multi-thread"] }
