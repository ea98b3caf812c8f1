[package]
name = "hotaru_mqtt"
version = "0.8.2"
edition = "2021"
publish = false

[dependencies]
async-trait = "=0.1.92"
bitflags = "=2.13.2"
bytes = "=1.12.1"
dashmap = "=6.2.1"
hotaru_core = "=0.8.2"
tokio = { version = "=1.54.1", features = ["io-util", "macros", "net", "rt", "rt-multi-thread", "sync", "time"] }
