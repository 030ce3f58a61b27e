[package]
name = "cpu_gauges"
version = "0.1.0"
edition = "2021"
publish = false

[dependencies]
chaos-framework = "*"
glfw = "0.57"
sysinfo = "=0.39.6"
tokio = { version = "=1.54.1", features = ["rt-multi-thread", "macros", "sync", "time"] }
