[package]
name = "tristimg"
version = "0.1.0"
edition = "2021"
publish = false

[dependencies]
clap = { version = "4", features = ["derive", "env"] }
dotenvy = "*"
hdf5 = "*"
ptree = { version = "*", default-features = false }
thiserror = "*"
tracing = "*"
tracing-subscriber = "*"
