[package]
name = "receiptd"
version = "0.1.0"
edition = "2021"
publish = false

[dependencies]
anyhow = "*"
kqueue = "*"
number_to_words = "*"
printpdf = { version = "0.7", features = ["svg"] }
regex = "*"
reqwest = { version = "*", default-features = false, features = ["rustls-tls"] }
scraper = "*"
tokio = { version = "*", features = ["macros", "rt-multi-thread"] }
