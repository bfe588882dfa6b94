[package]
name = "ros2_relay"
version = "0.1.0"
edition = "2021"
publish = false

[dependencies]
make87_messages = "=0.0.95"
ros2-client = "=0.7.6"
rustdds = "=0.11.1"
rustix = { version = "=1.1.5", features = ["time"] }
ros2-interfaces-rolling = { version = "=0.0.2", features = ["example_interfaces"] }
tokio = { version = "=1.53.2", features = ["rt-multi-thread", "macros"] }
uuid = { version = "=1.27.0", features = ["v4"] }
