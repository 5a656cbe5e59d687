[package]
name = "custodial_wallet"
version = "0.1.0"
edition = "2021"
publish = false

[dependencies]
borsh = { version = "1.8.1", features = ["derive"] }
bs58 = "0.5.1"
humantime = "2.4.0"
tai64 = "4.1.0"
