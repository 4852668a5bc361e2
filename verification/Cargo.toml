[package]
name = "item_tracker"
version = "0.1.0"
edition = "2021"
publish = false

[dependencies]
json = "*"
sql_lexer = "*"
regex = "1"
dateparser = "*"
tokio = { version = "1", features = ["rt", "rt-multi-thread", "macros", "time", "sync"] }
poise = "0.5"
mysql = { version = "*", default-features = false }
dotenv = "*"
tracing = "0.1"
tracing-subscriber = "0.3"
reqwest = { version = "0.11", default-features = false, features = ["rustls-tls"] }
