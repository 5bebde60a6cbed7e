[package]
name = "coursepilot"
version = "0.1.0"
edition = "2021"
publish = false

[dependencies]
scraper = "=0.27.0"
ego-tree = "=0.11.0"
chrono = "=0.4.45"
reqwest = { version = "=0.13.5", default-features = false, features = ["form"] }
tokio = { version = "*", features = ["macros", "rt-multi-thread"] }
serde = { version = "*", features = ["derive"] }
serde_json = "*"
thiserror = "*"
