[package]
name = "financ"
version = "0.1.0"
edition = "2021"
publish = false

[dependencies]
anyhow = "1"
calamine = "*"
chrono = "0.4"
clap = { version = "4", features = ["derive"] }
clap_complete = "4"
console = "*"
diesel = { version = "2", features = ["sqlite"] }
dotenv = "0.15"
guid-create = "*"
lazy_static = "1"
regex = "1"
rust_decimal = "1"
