[package]
name = "todo"
version = "0.1.0"
edition = "2021"
publish = false

[dependencies]
uuid = { version = "=1.27.0", features = ["v4"] }
tokio = { version = "=1.53.2", features = ["fs", "rt-multi-thread", "macros", "io-std", "io-util"] }
tokio-postgres = { version = "=0.7.18", features = ["with-uuid-1"] }
console = "=0.15.11"
async-trait = "=0.1.92"
