[package]
name = "proxy_crawler"
version = "0.1.0"
edition = "2021"
publish = false

[dependencies]
scraper = "*"
reqwest = "*"
tokio = { version = "1", features = ["macros", "rt-multi-thread"] }
pyo3 = "0.20"
pyo3-asyncio = { version = "0.20", features = ["tokio-runtime"] }
