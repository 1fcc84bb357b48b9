[package]
name = "ws2812"
version = "0.1.0"
edition = "2021"
publish = false

[dependencies]
esp-hal = { version = "=1.2.2", features = ["esp32c3", "unstable"] }
esp-rtos = { version = "=0.4.0", features = ["esp32c3", "embassy"] }
esp-alloc = { version = "=0.11.0", features = ["esp32c3"] }
embassy-executor = "=0.10.0"
embassy-time = "=0.5.1"
esp-backtrace = { version = "=0.20.0", features = ["esp32c3"] }
esp-println = { version = "=0.18.0", features = ["esp32c3"] }
