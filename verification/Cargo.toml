[package]
name = "review_tool"
version = "0.1.0"
edition = "2021"
publish = false

[dependencies]
anyhow = "=1.0.104"
octocrab = "=0.43.0"
syn = { version = "=2.0.119", features = ["full"] }
tokio = { version = "=1.53.2", features = ["macros", "rt-multi-thread"] }
