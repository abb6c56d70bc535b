[package]
name = "maika"
version = "0.1.0"
edition = "2021"
publish = false

[dependencies]
rand = "=0.4.6"
chrono = "=0.4.45"
colored = "=1.9.4"
time = "=0.1.45"
typemap = "=0.3.3"
kankyo = "=0.2.0"
env_logger = "=0.4.3"
serenity = "0.12"
tokio = { version = "1", features = ["macros", "rt-multi-thread"] }
