[package]
name = "task_tracer"
version = "0.1.0"
edition = "2021"
publish = false

[dependencies]
plain = "0.2"
anyhow = "1"
clap = { version = "4", features = ["derive"] }
ctrlc = "3"
libc = "0.2"
libbpf-rs = "*"
serde = { version = "1", features = ["derive"] }
serde_json = "1"
