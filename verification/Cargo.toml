[package]
name = "patti_csv"
version = "0.1.0"
edition = "2021"
publish = false

[dependencies]
regex = "1"
compact_str = "*"
serde = { version = "1", features = ["derive"] }
thiserror = "1"
strum_macros = "*"
