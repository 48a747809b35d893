[package]
name = "dht11"
version = "0.1.0"
edition = "2021"
publish = false

[dependencies]
cortex-m = "=0.7.10"
defmt = "=1.2.0"
defmt-rtt = "=1.3.1"
embassy-executor = "=0.9.1"
embassy-stm32 = { version = "=0.6.0", features = ["stm32f446re", "time-driver-any"] }
embassy-time = "=0.5.1"
panic-probe = "=1.0.0"
