[package]
name = "rt_rust"
version = "0.1.0"
edition = "2021"
publish = false

[dependencies]
rand = "=0.8.8"
nalgebra-glm = "=0.21.0"
crossbeam-channel = "=0.5.17"
gl = "0.14"
clap = "2"
serde = { version = "1", features = ["derive"] }
serde_json = "1"
ipc-channel = "*"
is_executable = "1"
ctrlc = { version = "3", features = ["termination"] }
pbr = "1"
