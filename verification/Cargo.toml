[package]
name = "query_core"
version = "0.1.0"
edition = "2021"
publish = false

[dependencies]
regex = "1"
serde = { version = "1", features = ["derive"] }
serde_json = "1"
async-trait = "0.1"
async-recursion = "1"
futures = "0.3"
sqlparser = "*"
primitive-types = "*"
