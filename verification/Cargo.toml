[package]
name = "sol"
version = "0.1.0"
edition = "2021"
publish = false

[dependencies]
clap = { version = "4", features = ["derive"] }
codespan-reporting = "0.11"
itertools = "*"
ordermap = "*"
phf = { version = "*", features = ["macros"] }
thiserror = "1"
tracing = "*"
tracing-subscriber = "*"
