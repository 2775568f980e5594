[package]
name = "dutchman"
version = "0.1.0"
edition = "2021"
publish = false

[dependencies]
chrono = "*"
dotenv = "*"
frankenstein = { version = "*", features = ["client-reqwest"] }
gemini-rust = "*"
tokio = { version = "*", features = ["macros", "rt-multi-thread", "time"] }
