[package]
name = "latency_sim"
version = "0.1.0"
edition = "2021"
publish = false

[dependencies]
actix-web = { version = "4", default-features = false, features = ["macros"] }
clap = { version = "4", features = ["cargo"] }
rlimit = "*"
thousands = "0.2"
