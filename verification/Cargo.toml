[package]
name = "onboarding"
version = "0.1.0"
edition = "2021"
publish = false

[dependencies]
colored = "2"
serenity = "0.10"
tokio = { version = "1", features = ["macros", "rt-multi-thread"] }
