[package]
name = "task_executor"
version = "0.1.0"
edition = "2021"
publish = false

[dependencies]
async-fifo = "*"
async-io = "*"
async-net = "*"
futures-lite = "*"
serde = { version = "*", features = ["derive"] }
serde_json = "*"
