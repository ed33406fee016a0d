[package]
name = "mig_gpu_mon"
version = "0.1.0"
edition = "2021"
publish = false

[dependencies]
anyhow = "1"
chrono = "0.4"
clap = { version = "4", features = ["derive"] }
crossterm = "0.28"
nvml-wrapper = "0.10"
nvml-wrapper-sys = "0.8"
ratatui = "0.29"
sysinfo = "0.33"
