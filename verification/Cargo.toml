[package]
name = "record_gen"
version = "0.1.0"
edition = "2021"
publish = false

[dependencies]
uuid = { version = "1", features = ["v4"] }
fake = "2"
rand = "0.8"
umya-spreadsheet = "*"
calamine = "*"
quick-xml = "*"
clap = { version = "4", features = ["derive"] }
log = "0.4"
prettytable-rs = "*"
anyhow = "1"
